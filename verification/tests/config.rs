use aerie::config::{ModelMap, ModelRole, Preferences, RoleEntry, SeedConfig, SessionCommand, is_zero};

fn builtin_roles() -> Vec<ModelRole> {
    vec![
        ModelRole::Default,
        ModelRole::Fast,
        ModelRole::Large,
        ModelRole::Reasoning,
        ModelRole::Creative,
        ModelRole::Programming,
        ModelRole::Structured,
        ModelRole::Condenser,
        ModelRole::Vision,
    ]
}

#[test]
fn role_labels_are_kebab_case() {
    assert_eq!(ModelRole::Default.to_string(), "default");
    assert_eq!(ModelRole::Programming.to_string(), "programming");
    assert_eq!(ModelRole::Custom("gpt-x".to_string()).to_string(), "gpt-x");
}

#[test]
fn role_label_parses_back_to_the_role() {
    for role in builtin_roles() {
        assert_eq!(ModelRole::from_str(&role.to_string()), role);
    }
    let custom = ModelRole::Custom("my-model".to_string());
    assert_eq!(ModelRole::from_str(&custom.to_string()), custom);
}

#[test]
fn unknown_role_text_is_custom() {
    assert_eq!(ModelRole::from_str("Fast"), ModelRole::Custom("Fast".to_string()));
    assert!(ModelRole::from_str("whatever").is_custom());
    assert!(!ModelRole::from_str("vision").is_custom());
}

#[test]
fn role_messages() {
    assert_eq!(
        ModelRole::Default.get_message(),
        Some("Fallback model when using an unassigned role")
    );
    assert_eq!(
        ModelRole::Custom(String::new()).get_message(),
        Some("Literal model name. Can only be passed via node input.")
    );
}

#[test]
fn iterates_roles_in_declaration_order() {
    let roles = ModelRole::iter();
    assert_eq!(roles.len(), 10);
    assert_eq!(roles[0], ModelRole::Default);
    assert_eq!(roles[8], ModelRole::Vision);
    assert_eq!(roles[9], ModelRole::Custom(String::new()));
    assert_eq!(ModelRole::default(), ModelRole::Default);
}

#[test]
fn model_map_insert_replaces() {
    let mut m = ModelMap::new();
    m.insert(ModelRole::Fast, "a/b".to_string());
    m.insert(ModelRole::Fast, "c/d".to_string());
    m.insert(ModelRole::Vision, "e/f".to_string());
    assert_eq!(m.len(), 2);
    assert_eq!(m.get(&ModelRole::Fast), Some(&"c/d".to_string()));
    assert_eq!(m.get(&ModelRole::Large), None);
}

#[test]
fn default_preferences_have_a_default_profile() {
    let p = Preferences::default();
    assert!(p.has_profile("default"));
    assert!(!p.has_profile("other"));
    assert_eq!(p.models.keys(), vec!["default".to_string()]);
    assert_eq!(p.get_model_map().len(), 0);
    assert!(p.profile.is_empty());
}

fn prefs_with_models() -> Preferences {
    let mut p = Preferences::default();
    p.create_profile("work".to_string());
    p.add_model();
    p.add_model();
    {
        let entries = p.active_entries();
        let mut e0 = entries[0].clone();
        e0.name = "openai/gpt".to_string();
        entries.set(0, e0);
        let mut e1 = entries[1].clone();
        e1.name = "ollama/llama".to_string();
        entries.set(1, e1);
    }
    p
}

#[test]
fn toggling_roles_keeps_each_role_on_one_model() {
    let mut p = prefs_with_models();
    p.toggle_role(0, ModelRole::Fast);
    // the role is taken by model 0: model 1 cannot take it
    p.toggle_role(1, ModelRole::Fast);
    p.toggle_role(1, ModelRole::Vision);
    let map = p.get_model_map();
    assert_eq!(map.get(&ModelRole::Fast), Some(&"openai/gpt".to_string()));
    assert_eq!(map.get(&ModelRole::Vision), Some(&"ollama/llama".to_string()));
    assert_eq!(map.len(), 2);
    // clicking a held role drops it; then the other model may take it
    p.toggle_role(0, ModelRole::Fast);
    p.toggle_role(1, ModelRole::Fast);
    let map = p.get_model_map();
    assert_eq!(map.get(&ModelRole::Fast), Some(&"ollama/llama".to_string()));
}

#[test]
fn profiles_are_created_renamed_and_deleted() {
    let mut p = prefs_with_models();
    assert_eq!(p.profile, "work");
    p.rename_active_profile("");
    assert_eq!(p.profile, "work");
    p.rename_active_profile("job");
    assert_eq!(p.profile, "job");
    assert!(!p.has_profile("work"));
    assert!(p.has_profile("job"));
    p.delete_active_profile();
    assert_eq!(p.profile, "default");
    p.delete_active_profile();
    assert_eq!(p.profile, "");
    assert!(p.models.is_empty());
    p.fill_profile_name();
    assert_eq!(p.profile, "default");
}

#[test]
fn removing_a_model_drops_its_roles() {
    let mut p = prefs_with_models();
    p.toggle_role(1, ModelRole::Large);
    p.remove_model(1);
    assert_eq!(p.get_model_map().len(), 0);
    assert_eq!(p.active_entries().len(), 1);
}

#[test]
fn first_key_is_lowest() {
    let mut p = Preferences::default();
    p.create_profile("b".to_string());
    p.create_profile("a".to_string());
    assert_eq!(p.models.first_key(), Some("a".to_string()));
    let entry = RoleEntry::new();
    assert!(entry.name.is_empty());
    assert!(entry.roles.is_empty());
}

#[test]
fn seed_and_session_values() {
    let s = SeedConfig { value: 7, increment: 0 };
    assert!(is_zero(&s.increment));
    assert!(!is_zero(&s.value));
    assert_eq!(SeedConfig::default(), SeedConfig { value: 0, increment: 0 });
    assert_eq!(SessionCommand::List, SessionCommand::List);
}

#[test]
fn model_count_follows_the_profile_in_use() {
    let mut p = prefs_with_models();
    assert_eq!(p.model_count(), 2);
    p.remove_model(0);
    assert_eq!(p.model_count(), 1);
    p.profile = "missing".to_string();
    assert_eq!(p.model_count(), 0);
}

#[test]
fn editing_keeps_every_profile_free_of_shared_roles() {
    let mut p = prefs_with_models();
    p.toggle_role(0, ModelRole::Fast);
    p.toggle_role(1, ModelRole::Fast);
    p.add_model();
    p.toggle_role(2, ModelRole::Fast);
    p.rename_active_profile("renamed");
    p.remove_model(0);
    p.toggle_role(1, ModelRole::Fast);
    p.create_profile("other".to_string());
    p.add_model();
    p.toggle_role(0, ModelRole::Fast);
    for key in p.models.keys() {
        let entries = p.models.get(&key).unwrap();
        let holders = entries.iter().filter(|e| e.roles.contains(&ModelRole::Fast)).count();
        assert!(holders <= 1);
    }
}

#[test]
fn model_map_pairs_are_in_role_order() {
    let mut m = ModelMap::new();
    m.insert(ModelRole::Custom("zeta".to_string()), "z/1".to_string());
    m.insert(ModelRole::Vision, "v/1".to_string());
    m.insert(ModelRole::Custom("alpha".to_string()), "a/1".to_string());
    m.insert(ModelRole::Default, "d/1".to_string());
    m.insert(ModelRole::Fast, "f/1".to_string());
    m.insert(ModelRole::Vision, "v/2".to_string());
    let roles: Vec<ModelRole> = m.pairs().iter().map(|(r, _)| r.clone()).collect();
    assert_eq!(
        roles,
        vec![
            ModelRole::Default,
            ModelRole::Fast,
            ModelRole::Vision,
            ModelRole::Custom("alpha".to_string()),
            ModelRole::Custom("zeta".to_string()),
        ]
    );
    let mut sorted = roles.clone();
    sorted.sort();
    assert_eq!(roles, sorted);
    assert_eq!(m.get(&ModelRole::Vision), Some(&"v/2".to_string()));
    assert!(ModelRole::Fast.sorts_before(&ModelRole::Large));
    assert!(!ModelRole::Custom("b".to_string()).sorts_before(&ModelRole::Custom("a".to_string())));
}
