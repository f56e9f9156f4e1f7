//! Agents: the tool through which a model submits structured data, and the
//! `provider/model` names that agents are built from.
use vstd::prelude::*;

use crate::text::{owned, split_once_char, split_once_spec};

verus! {

#[verifier::external_type_specification]
#[verifier::external_body]
pub struct ExJsonValue(serde_json::Value);

/// `Clone` of a JSON value: the derived clone, a value equal to the one cloned.
pub assume_specification[ <serde_json::Value as Clone>::clone ](v: &serde_json::Value) -> (r:
    serde_json::Value)
    ensures
        r == *v,
;

/// The name, description and parameter schema that a tool shows a model.
#[derive(Clone, Debug, PartialEq)]
pub struct ToolDefinition {
    pub name: String,
    pub description: String,
    pub parameters: serde_json::Value,
}

/// A tool a model calls to submit a JSON value that fits a schema.
#[derive(Clone, Debug, PartialEq)]
pub struct StructuredSubmit {
    schema: serde_json::Value,
}

/// The name the tool goes by.
pub const STRUCTURED_SUBMIT_NAME: &'static str = "submit-structured-data";

impl StructuredSubmit {
    /// The schema the submitted value is to fit.
    pub closed spec fn schema_spec(&self) -> serde_json::Value {
        self.schema
    }

    /// The tool for a copy of `schema`.
    pub fn from_schema(schema: &serde_json::Value) -> (r: Self)
        ensures
            r.schema_spec() == *schema,
    {
        StructuredSubmit { schema: schema.clone() }
    }

    /// The schema the submitted value is to fit.
    pub fn schema(&self) -> (r: &serde_json::Value)
        ensures
            *r == self.schema_spec(),
    {
        &self.schema
    }

    /// What the tool shows a model: its name, an instruction to submit the
    /// answer through it, and the schema as its parameters.
    pub fn definition(&self) -> (r: ToolDefinition)
        ensures
            r.name@ == STRUCTURED_SUBMIT_NAME@,
            r.description@ == "Submits a JSON value confirming to this schema.\nBe sure to use this tool to submit your response."@,
            r.parameters == self.schema_spec(),
    {
        ToolDefinition {
            name: owned(STRUCTURED_SUBMIT_NAME),
            description: owned(
                "Submits a JSON value confirming to this schema.\nBe sure to use this tool to submit your response.",
            ),
            parameters: self.schema.clone(),
        }
    }

    /// A call hands the submitted value back unchanged: it is the answer.
    pub fn call(&self, args: serde_json::Value) -> (r: serde_json::Value)
        ensures
            r == args,
    {
        args
    }
}

/// A model name that does not say which provider serves it.
#[derive(Clone, Copy, Debug, PartialEq, Eq, Structural)]
pub enum ModelNameError {
    /// Could not determine LLM provider and model.
    NoProvider,
}

/// Splits `provider/model` at its first `/`: the provider and the model,
/// which may hold more `/`. A name without `/` is an error.
pub fn parse_model(provider_model: &str) -> (r: Result<(String, String), ModelNameError>)
    ensures
        match split_once_spec(provider_model@, '/') {
            Some((p, m)) => r matches Ok((a, b)) && a@ == p && b@ == m,
            None => r == Err::<(String, String), ModelNameError>(ModelNameError::NoProvider),
        },
{
    match split_once_char(provider_model, '/') {
        Some((p, m)) => Ok((owned(p), owned(m))),
        None => Err(ModelNameError::NoProvider),
    }
}

} // verus!
