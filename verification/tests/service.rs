use aerie::service::{
    ExecOutcome, INTERNAL_ERROR_CODE, INVALID_REQUEST_CODE, METHOD_NOT_FOUND_CODE, ToolCallError,
    ToolInputMode, event_filters, keep_alive_comment, tool_call_inputs, tool_exec_args,
    tool_input_mode,
};

#[test]
fn execution_reply_statuses() {
    assert_eq!(ExecOutcome::BadUserHeader.status(), 400);
    assert_eq!(ExecOutcome::NoWorkflowStore.status(), 500);
    assert_eq!(ExecOutcome::WorkflowNotFound.status(), 404);
    assert_eq!(ExecOutcome::ShuttingDown.status(), 503);
    assert_eq!(ExecOutcome::TaskFailed("panic".to_string()).status(), 500);
    assert_eq!(ExecOutcome::RunFailed("bad".to_string()).status(), 400);
    assert_eq!(ExecOutcome::Finished.status(), 200);
    assert_eq!(ExecOutcome::ShuttingDown.message(), Some("Server shutting down".to_string()));
    assert_eq!(ExecOutcome::RunFailed("bad".to_string()).message(), Some("bad".to_string()));
    assert_eq!(ExecOutcome::Finished.message(), None);
}

#[test]
fn event_filters_keep_valid_patterns_in_order() {
    let events = vec!["workflow*".to_string(), "[".to_string(), "runner".to_string()];
    assert_eq!(event_filters(&events), vec!["workflow*".to_string(), "runner".to_string()]);
    assert!(event_filters(&Vec::new()).is_empty());
}

#[test]
fn keep_alive_text() {
    assert_eq!(keep_alive_comment(0), "keep-alive @ 0s");
    assert_eq!(keep_alive_comment(125), "keep-alive @ 125s");
}

#[test]
fn tool_inputs_are_structured_only_with_a_json_schema() {
    assert_eq!(tool_input_mode("{\"type\":\"object\"}", true), ToolInputMode::Structured);
    assert_eq!(tool_input_mode("not json", false), ToolInputMode::PromptAndImages);
    assert_eq!(tool_input_mode("", false), ToolInputMode::PromptAndImages);
}

#[test]
fn tool_call_errors() {
    assert_eq!(ToolCallError::StoreMissing.message(), "Workflow store missing");
    assert_eq!(ToolCallError::StoreMissing.code(), INTERNAL_ERROR_CODE);
    let unknown = ToolCallError::UnknownTool("summarize".to_string());
    assert_eq!(unknown.code(), METHOD_NOT_FOUND_CODE);
    assert_eq!(unknown.message(), "summarize");
    let invalid = ToolCallError::Validation("missing field".to_string());
    assert_eq!(invalid.code(), INVALID_REQUEST_CODE);
    assert_eq!(invalid.message(), "Validation error: missing field");
    assert_eq!(
        ToolCallError::InvalidSchema("x".to_string()).message(),
        "Invalid schema: x"
    );
    assert_eq!(
        ToolCallError::Launch("x".to_string()).message(),
        "Unable to launch runner: x"
    );
    assert_eq!(
        ToolCallError::Execution("x".to_string()).message(),
        "Error during workflow execution: x"
    );
    assert_eq!(INTERNAL_ERROR_CODE, -32603);
}

#[test]
fn tool_runs_use_service_autoruns() {
    let a = tool_exec_args(3);
    assert_eq!(a.autoruns, 3);
    assert!(a.workflow.is_empty());
    assert!(a.images.is_empty());
}

#[test]
fn structured_tool_call_takes_arguments_as_json() {
    assert_eq!(
        tool_call_inputs(ToolInputMode::Structured, Some("{ \"city\" : \"Oslo\", \"days\": 3 }")),
        Ok(("{\"city\":\"Oslo\",\"days\":3}".to_string(), vec![]))
    );
    assert_eq!(tool_call_inputs(ToolInputMode::Structured, None), Ok(("{}".to_string(), vec![])));
    assert_eq!(
        tool_call_inputs(ToolInputMode::Structured, Some("[1]")),
        Err(ToolCallError::ArgumentsNotObject)
    );
    assert_eq!(ToolCallError::ArgumentsNotObject.message(), "Arguments are not a JSON object");
}

#[test]
fn plain_tool_call_takes_prompt_and_images() {
    assert_eq!(
        tool_call_inputs(
            ToolInputMode::PromptAndImages,
            Some("{\"prompt\": \"hi\", \"images\": [\"a.png\", \"b.png\"]}")
        ),
        Ok(("\"hi\"".to_string(), vec!["a.png".to_string(), "b.png".to_string()]))
    );
    assert_eq!(
        tool_call_inputs(ToolInputMode::PromptAndImages, Some("{\"images\": 5}")),
        Ok(("null".to_string(), vec![]))
    );
    assert_eq!(
        tool_call_inputs(ToolInputMode::PromptAndImages, None),
        Ok(("null".to_string(), vec![]))
    );
}

#[test]
fn run_outputs_are_collected_by_label() {
    let outputs = vec![
        ("summary".to_string(), "\"first\"".to_string()),
        ("count".to_string(), "3".to_string()),
        ("summary".to_string(), "\"second\"".to_string()),
    ];
    assert_eq!(
        aerie::service::collect_outputs(&outputs),
        vec![
            ("count".to_string(), "3".to_string()),
            ("summary".to_string(), "\"second\"".to_string()),
        ]
    );
}
