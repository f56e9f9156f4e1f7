use aerie::state::{ConfigState, RECENT_MODELS_CAP, StateField};

#[test]
fn new_state_is_empty() {
    let s = ConfigState::new();
    assert!(s.prev_models.is_empty());
    assert!(s.workflow.is_empty());
    assert!(s.session.is_empty());
}

#[test]
fn field_keys() {
    let keys: Vec<&str> = StateField::all().iter().map(|f| f.key()).collect();
    assert_eq!(keys, vec!["prev_models", "workflow", "session", "export_dir", "output_dir"]);
}

#[test]
fn remembered_model_moves_to_front_once() {
    let mut s = ConfigState::new();
    s.remember_model("a/1");
    s.remember_model("b/2");
    s.remember_model("a/1");
    let names: Vec<String> = s.prev_models.iter().cloned().collect();
    assert_eq!(names, vec!["a/1".to_string(), "b/2".to_string()]);
}

#[test]
fn recent_models_are_capped() {
    let mut s = ConfigState::new();
    for i in 0..20 {
        s.remember_model(&format!("model/{i}"));
    }
    assert_eq!(s.prev_models.len(), RECENT_MODELS_CAP);
    assert_eq!(s.prev_models[0], "model/19");
    assert_eq!(s.prev_models[15], "model/4");
}

#[test]
fn picking_a_recent_model_moves_it_to_front() {
    let mut s = ConfigState::new();
    s.remember_model("a");
    s.remember_model("b");
    s.remember_model("c");
    let picked = s.pick_recent_model(2);
    assert_eq!(picked, "a");
    let names: Vec<String> = s.prev_models.iter().cloned().collect();
    assert_eq!(names, vec!["a".to_string(), "c".to_string(), "b".to_string()]);
    s.clear_recent_models();
    assert!(s.prev_models.is_empty());
}

#[test]
fn changed_fields_lists_what_differs() {
    let base = ConfigState::new();
    let mut s = ConfigState::new();
    assert!(s.changed_fields(&base).is_empty());
    s.set_session("chat-1".to_string());
    s.set_output_dir(Some("/tmp/out".to_string()));
    s.set_export_dir(None);
    assert_eq!(s.changed_fields(&base), vec![StateField::Session, StateField::OutputDir]);
    assert_eq!(s.output_dir, "/tmp/out");
    assert_eq!(s.export_dir, "");
}

#[test]
fn stored_text_is_postcard_encoded() {
    let mut s = ConfigState::new();
    s.workflow = "Hi!".to_string();
    assert_eq!(s.encode_field(StateField::Workflow), vec![3, b'H', b'i', b'!']);
}

#[test]
fn reading_back_the_writes_restores_the_state() {
    let base = ConfigState::new();
    let mut s = ConfigState::new();
    s.remember_model("openai/gpt");
    s.remember_model("ollama/llama");
    s.workflow = "summarize".to_string();
    s.set_export_dir(Some("/home/me/flows".to_string()));
    let writes = s.writes_since(&base);
    let fields: Vec<StateField> = writes.iter().map(|(f, _)| *f).collect();
    assert_eq!(fields, vec![StateField::PrevModels, StateField::Workflow, StateField::ExportDir]);

    let mut restored = ConfigState::new();
    assert!(restored.load_stored(&writes).is_ok());
    assert!(restored.changed_fields(&s).is_empty());
    assert_eq!(restored.workflow, "summarize");
    assert_eq!(restored.prev_models[0], "ollama/llama");
}

#[test]
fn unreadable_bytes_leave_the_state() {
    let mut s = ConfigState::new();
    s.workflow = "keep".to_string();
    assert!(s.load_field(StateField::Workflow, &[5, b'a']).is_err());
    assert_eq!(s.workflow, "keep");
    assert!(s.load_field(StateField::Session, &[2, b'o', b'k']).is_ok());
    assert_eq!(s.session, "ok");
}

#[test]
fn loading_stops_at_unreadable_field() {
    let mut s = ConfigState::new();
    let stored = vec![
        (StateField::Workflow, vec![1, b'w']),
        (StateField::Session, vec![9]),
        (StateField::OutputDir, vec![1, b'o']),
    ];
    assert!(s.load_stored(&stored).is_err());
    assert_eq!(s.workflow, "w");
    assert_eq!(s.session, "");
    assert_eq!(s.output_dir, "");
}

#[test]
fn recent_count_counts_remembered_models() {
    let mut s = ConfigState::new();
    assert_eq!(s.recent_count(), 0);
    s.remember_model("a");
    s.remember_model("b");
    s.remember_model("a");
    assert_eq!(s.recent_count(), 2);
}

#[test]
fn refresh_after_update_reads_back_into_the_current_state() {
    let base = ConfigState::new();
    let mut s = ConfigState::new();
    s.workflow = "flow".to_string();
    s.set_session("chat".to_string());
    let writes = s.writes_since(&base);
    // the store's own state is already the changed one
    assert!(s.load_stored(&writes).is_ok());
    assert_eq!(s.workflow, "flow");
    assert_eq!(s.session, "chat");
    // a state that agrees on the unwritten fields reads back as the changed one
    let mut other = ConfigState::new();
    other.workflow = "stale".to_string();
    assert!(other.load_stored(&writes).is_ok());
    assert!(other.changed_fields(&s).is_empty());
}
