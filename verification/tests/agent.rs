use aerie::agent::{ModelNameError, STRUCTURED_SUBMIT_NAME, StructuredSubmit, parse_model};
use serde_json::Value;

fn schema() -> Value {
    let mut props = serde_json::Map::new();
    props.insert("type".to_string(), Value::String("object".to_string()));
    Value::Object(props)
}

#[test]
fn structured_submit_definition() {
    let tool = StructuredSubmit::from_schema(&schema());
    let def = tool.definition();
    assert_eq!(def.name, "submit-structured-data");
    assert_eq!(STRUCTURED_SUBMIT_NAME, "submit-structured-data");
    assert_eq!(
        def.description,
        "Submits a JSON value confirming to this schema.\nBe sure to use this tool to submit your response."
    );
    assert_eq!(def.parameters, schema());
    assert_eq!(tool.schema(), &schema());
}

#[test]
fn structured_submit_call_returns_its_arguments() {
    let tool = StructuredSubmit::from_schema(&schema());
    let args = Value::Array(vec![Value::Bool(true), Value::Null]);
    assert_eq!(tool.call(args.clone()), args);
}

#[test]
fn model_names_split_at_first_slash() {
    assert_eq!(
        parse_model("openrouter/openrouter/free"),
        Ok(("openrouter".to_string(), "openrouter/free".to_string()))
    );
    assert_eq!(parse_model("ollama/llama3:8b"), Ok(("ollama".to_string(), "llama3:8b".to_string())));
    assert_eq!(parse_model("gpt-4"), Err(ModelNameError::NoProvider));
}
