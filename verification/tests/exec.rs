use aerie::exec::{
    ChainStep, ExecArgs, ExecError, IdValue, PromptPlan, RunChain, WorkflowSource, check_autoruns,
    decimal_text, is_zero, workflow_source,
};

#[test]
fn default_exec_args() {
    let a = ExecArgs::default();
    assert!(a.workflow.is_empty());
    assert_eq!(a.autoruns, 0);
    assert!(is_zero(&a.autoruns));
    assert!(!is_zero(&3));
    assert!(!a.show_next && !a.show_ids && !a.pretty);
}

#[test]
fn autoruns_need_a_store() {
    let mut a = ExecArgs::default();
    a.autoruns = 2;
    assert_eq!(check_autoruns(&a, false), Err(ExecError::AutorunWithoutStore));
    assert_eq!(check_autoruns(&a, true), Ok(()));
    a.autoruns = 0;
    assert_eq!(check_autoruns(&a, false), Ok(()));
}

#[test]
fn prompt_plans() {
    let mut a = ExecArgs::default();
    let plan = PromptPlan::of(&a);
    assert_eq!(plan.text, "");
    assert!(!plan.read_stdin);
    assert_eq!(plan.clone().resolve(None, None), "");

    a.input = Some("-".to_string());
    let plan = PromptPlan::of(&a);
    assert!(plan.read_stdin);
    assert_eq!(plan.resolve(Some("from stdin".to_string()), None), "from stdin");

    a.input = Some("hello".to_string());
    a.input_file = Some("prompt.txt".to_string());
    let plan = PromptPlan::of(&a);
    assert!(!plan.read_stdin);
    assert_eq!(plan.file, Some("prompt.txt".to_string()));
    assert_eq!(plan.resolve(None, Some("from file".to_string())), "from file");
}

#[test]
fn workflow_sources() {
    assert_eq!(workflow_source("__default__", true, true), Ok(WorkflowSource::Default));
    assert_eq!(
        workflow_source("flow.yaml", true, true),
        Ok(WorkflowSource::File("flow.yaml".to_string()))
    );
    assert_eq!(
        workflow_source("summarize", false, true),
        Ok(WorkflowSource::Store("summarize".to_string()))
    );
    assert_eq!(
        workflow_source("summarize", false, false),
        Err(ExecError::InvalidWorkflow("summarize".to_string()))
    );
}

#[test]
fn decimal_texts() {
    assert_eq!(decimal_text(0), "0");
    assert_eq!(decimal_text(7), "7");
    assert_eq!(decimal_text(10), "10");
    assert_eq!(decimal_text(1234567890), "1234567890");
    assert_eq!(decimal_text(u64::MAX), u64::MAX.to_string());
}

#[test]
fn single_run_chain() {
    let mut c = RunChain::new(0, "hi".to_string(), vec!["a.png".to_string()]);
    assert!(c.allow_local());
    assert_eq!(c.output_subdir(), None);
    assert_eq!(c.take_prompt(), "hi");
    assert_eq!(c.take_prompt(), "");
    assert!(!c.may_chain());
    c.finish();
    assert!(c.done());
    assert_eq!(c.run_number(), 1);
}

#[test]
fn chain_follows_handed_on_workflows_up_to_the_limit() {
    let mut c = RunChain::new(2, "start".to_string(), vec![]);
    assert_eq!(c.output_subdir(), Some("0".to_string()));
    let _ = c.take_prompt();
    assert!(c.may_chain());
    let step = c.advance(
        Some("next prompt".to_string()),
        vec!["data:image/png;base64,AA==".to_string()],
        Some("second".to_string()),
        true,
    );
    assert_eq!(step, ChainStep::Load("second".to_string()));
    assert_eq!(c.run_count(), 1);
    assert!(!c.allow_local());
    assert_eq!(c.output_subdir(), Some("1".to_string()));
    assert_eq!(c.images().len(), 1);
    assert_eq!(c.take_prompt(), "next prompt");
    let step = c.advance(None, vec![], Some("third".to_string()), true);
    assert_eq!(step, ChainStep::Load("third".to_string()));
    assert_eq!(c.run_number(), 3);
    assert!(!c.may_chain());
    c.finish();
    assert!(c.done());
}

#[test]
fn chain_stops_without_next_workflow_or_store() {
    let mut c = RunChain::new(5, String::new(), vec![]);
    assert_eq!(c.advance(None, vec![], None, true), ChainStep::Stop);
    assert!(c.done());
    let mut c = RunChain::new(5, String::new(), vec![]);
    assert_eq!(c.advance(None, vec![], Some("x".to_string()), false), ChainStep::Stop);
    assert!(c.done());
    assert_eq!(c.run_count(), 0);
}

#[test]
fn id_outputs_when_shown() {
    let mut c = RunChain::new(1, String::new(), vec![]);
    assert!(c.id_outputs(false, "uuid".to_string()).is_empty());
    let _ = c.advance(None, vec![], Some("next".to_string()), true);
    assert_eq!(
        c.id_outputs(true, "uuid".to_string()),
        vec![
            ("__id".to_string(), IdValue::Text("uuid".to_string())),
            ("__run".to_string(), IdValue::Integer(2)),
        ]
    );
}
