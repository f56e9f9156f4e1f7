//! The runner as a service: what an HTTP request or a tool call is answered,
//! and which run events a client asked to follow.
use vstd::prelude::*;

use crate::exec::{decimal, decimal_text, ExecArgs};
use crate::persistent::texts_of;
use crate::text::{concat, concat3, last_wins, merge_last_wins, names_ascending, owned, text_pairs};
use crate::image::{string_opt, text_opt};
use crate::tools::{glob_valid, tool_glob};

verus! {

// ---------------------------------------------------------------------------
// HTTP

/// How the handling of an execution request ended.
#[derive(Clone, Debug, PartialEq, Eq)]
pub enum ExecOutcome {
    /// The user-name header held no text.
    BadUserHeader,
    /// The server has no workflow store.
    NoWorkflowStore,
    /// The store has no workflow of the requested name.
    WorkflowNotFound,
    /// The server began shutting down while the run went on.
    ShuttingDown,
    /// The task running the workflow failed; its report.
    TaskFailed(String),
    /// The workflow failed; its report.
    RunFailed(String),
    /// The workflow ran; the outputs are sent.
    Finished,
}

/// The HTTP status of a reply.
pub open spec fn outcome_status(o: ExecOutcome) -> u16 {
    match o {
        ExecOutcome::BadUserHeader => 400,
        ExecOutcome::NoWorkflowStore => 500,
        ExecOutcome::WorkflowNotFound => 404,
        ExecOutcome::ShuttingDown => 503,
        ExecOutcome::TaskFailed(_) => 500,
        ExecOutcome::RunFailed(_) => 400,
        ExecOutcome::Finished => 200,
    }
}

impl ExecOutcome {
    /// The HTTP status the request is answered with: a bad header or a
    /// failed run is the client's fault (400), a missing store or a failed
    /// task the server's (500), an unknown workflow is 404, shutting down 503.
    pub fn status(&self) -> (r: u16)
        ensures
            r == outcome_status(*self),
    {
        match self {
            ExecOutcome::BadUserHeader => 400,
            ExecOutcome::NoWorkflowStore => 500,
            ExecOutcome::WorkflowNotFound => 404,
            ExecOutcome::ShuttingDown => 503,
            ExecOutcome::TaskFailed(_) => 500,
            ExecOutcome::RunFailed(_) => 400,
            ExecOutcome::Finished => 200,
        }
    }

    /// The text of a reply that carries one: the shutdown notice, or the
    /// failure report.
    pub fn message(&self) -> (r: Option<String>)
        ensures
            match *self {
                ExecOutcome::ShuttingDown => r matches Some(m) && m@ == "Server shutting down"@,
                ExecOutcome::TaskFailed(e) => r matches Some(m) && m@ == e@,
                ExecOutcome::RunFailed(e) => r matches Some(m) && m@ == e@,
                _ => r is None,
            },
    {
        match self {
            ExecOutcome::ShuttingDown => Some(owned("Server shutting down")),
            ExecOutcome::TaskFailed(e) => Some(e.clone()),
            ExecOutcome::RunFailed(e) => Some(e.clone()),
            _ => None,
        }
    }
}

/// The texts of `v` that are valid glob patterns, in order.
pub open spec fn valid_patterns(v: Seq<Seq<char>>) -> Seq<Seq<char>> {
    v.filter(|p: Seq<char>| glob_valid(p))
}

/// The event filters a client asked for that are valid glob patterns, in
/// order; the others are dropped.
pub fn event_filters(events: &Vec<String>) -> (r: Vec<String>)
    ensures
        texts_of(r@) == valid_patterns(texts_of(events@)),
{
    let mut out: Vec<String> = Vec::new();
    let mut i: usize = 0;
    while i < events.len()
        invariant
            i <= events@.len(),
            texts_of(out@) == valid_patterns(texts_of(events@.take(i as int))),
        decreases events.len() - i,
    {
        let ok = tool_glob(events[i].clone()).is_ok();
        let ghost before = out@;
        if ok {
            out.push(events[i].clone());
        }
        proof {
            let t = texts_of(events@.take(i + 1));
            assert(t.drop_last() =~= texts_of(events@.take(i as int)));
            reveal(Seq::filter);
            assert(valid_patterns(t) == (if glob_valid(t.last()) {
                valid_patterns(t.drop_last()).push(t.last())
            } else {
                valid_patterns(t.drop_last())
            }));
            assert(texts_of(out@) =~= (if ok {
                texts_of(before).push(events@[i as int]@)
            } else {
                texts_of(before)
            }));
        }
        i = i + 1;
    }
    assert(events@.take(i as int) =~= events@);
    out
}

/// The comment that keeps an event stream open: `keep-alive @ {secs}s`.
pub fn keep_alive_comment(elapsed_secs: u64) -> (r: String)
    ensures
        r@ == "keep-alive @ "@ + decimal(elapsed_secs as nat) + "s"@,
{
    let n = decimal_text(elapsed_secs);
    concat3("keep-alive @ ", n.as_str(), "s")
}

// ---------------------------------------------------------------------------
// Tool calls

/// How a workflow called as a tool takes its arguments.
#[derive(Clone, Copy, Debug, PartialEq, Eq, Structural)]
pub enum ToolInputMode {
    /// The workflow has a JSON schema: the arguments, checked against it, are
    /// the prompt, as JSON text.
    Structured,
    /// No usable schema: the `prompt` argument is the prompt and the `images`
    /// argument, when it is a list of texts, the images.
    PromptAndImages,
}

/// A workflow with a schema takes structured arguments, provided the schema is
/// JSON (`schema_is_json`); otherwise it takes a prompt and images.
pub fn tool_input_mode(schema: &str, schema_is_json: bool) -> (r: ToolInputMode)
    ensures
        r == (if schema@.len() > 0 && schema_is_json {
            ToolInputMode::Structured
        } else {
            ToolInputMode::PromptAndImages
        }),
{
    if schema.unicode_len() > 0 && schema_is_json {
        ToolInputMode::Structured
    } else {
        ToolInputMode::PromptAndImages
    }
}

/// Why a tool call failed. The texts are the reports of the failures.
#[derive(Clone, Debug, PartialEq, Eq)]
pub enum ToolCallError {
    /// There is no workflow store.
    StoreMissing,
    /// No workflow has the tool's name.
    UnknownTool(String),
    /// The workflow's schema is not a valid JSON schema.
    InvalidSchema(String),
    /// The arguments do not fit the schema.
    Validation(String),
    /// The run could not be launched.
    Launch(String),
    /// The workflow failed.
    Execution(String),
    /// The arguments or outputs could not be written as JSON.
    Encoding(String),
    /// The arguments are no JSON object.
    ArgumentsNotObject,
}

/// The JSON-RPC error codes a tool call is answered with.
pub const INVALID_REQUEST_CODE: i32 = -32600;
pub const METHOD_NOT_FOUND_CODE: i32 = -32601;
pub const INTERNAL_ERROR_CODE: i32 = -32603;

impl ToolCallError {
    /// The error code: an unknown tool is an unknown method, arguments that do
    /// not fit the schema an invalid request, and anything else an internal
    /// error.
    pub fn code(&self) -> (r: i32)
        ensures
            *self is UnknownTool ==> r == METHOD_NOT_FOUND_CODE,
            *self is Validation ==> r == INVALID_REQUEST_CODE,
            !(*self is UnknownTool) && !(*self is Validation) ==> r == INTERNAL_ERROR_CODE,
    {
        match self {
            ToolCallError::UnknownTool(_) => METHOD_NOT_FOUND_CODE,
            ToolCallError::Validation(_) => INVALID_REQUEST_CODE,
            _ => INTERNAL_ERROR_CODE,
        }
    }

    /// The error message.
    pub fn message(&self) -> (r: String)
        ensures
            r@ == (match *self {
                ToolCallError::StoreMissing => "Workflow store missing"@,
                ToolCallError::UnknownTool(n) => n@,
                ToolCallError::InvalidSchema(e) => "Invalid schema: "@ + e@,
                ToolCallError::Validation(e) => "Validation error: "@ + e@,
                ToolCallError::Launch(e) => "Unable to launch runner: "@ + e@,
                ToolCallError::Execution(e) => "Error during workflow execution: "@ + e@,
                ToolCallError::Encoding(e) => e@,
                ToolCallError::ArgumentsNotObject => "Arguments are not a JSON object"@,
            }),
    {
        match self {
            ToolCallError::StoreMissing => owned("Workflow store missing"),
            ToolCallError::UnknownTool(n) => n.clone(),
            ToolCallError::InvalidSchema(e) => concat("Invalid schema: ", e.as_str()),
            ToolCallError::Validation(e) => concat("Validation error: ", e.as_str()),
            ToolCallError::Launch(e) => concat("Unable to launch runner: ", e.as_str()),
            ToolCallError::Execution(e) => concat("Error during workflow execution: ", e.as_str()),
            ToolCallError::Encoding(e) => e.clone(),
            ToolCallError::ArgumentsNotObject => owned("Arguments are not a JSON object"),
        }
    }
}

/// The arguments of a run started by a tool call: only the number of chained
/// runs the service allows.
pub fn tool_exec_args(autoruns: usize) -> (r: ExecArgs)
    ensures
        r.autoruns == autoruns,
        r.workflow@.len() == 0,
        r.input is None,
        r.input_file is None,
        r.images@.len() == 0,
        r.out_dir is None,
        !r.show_next && !r.show_ids && !r.pretty,
{
    ExecArgs { autoruns, ..ExecArgs::default() }
}


// ---------------------------------------------------------------------------
// Tool-call arguments, as JSON text

/// The text `serde_json` writes for the JSON object that `args` parses as,
/// if it parses as an object.
pub uninterp spec fn json_object_text(args: Seq<char>) -> Option<Seq<char>>;

/// The JSON text `serde_json` writes for the member `key` of the JSON object
/// that `args` parses as; none when `args` is no object or has no such member.
pub uninterp spec fn json_member_text(args: Seq<char>, key: Seq<char>) -> Option<Seq<char>>;

/// The texts of the JSON array of strings that `text` parses as, if it does.
pub uninterp spec fn json_text_list(text: Seq<char>) -> Option<Seq<Seq<char>>>;

/// `serde_json::from_str` of an object, then `serde_json::to_string` of it.
#[verifier::external_body]
fn object_text(args: &str) -> (r: Option<String>)
    ensures
        string_opt(r) == json_object_text(args@),
{
    match serde_json::from_str::<serde_json::Map<String, serde_json::Value>>(args) {
        Ok(m) => serde_json::to_string(&m).ok(),
        Err(_) => None,
    }
}

/// `serde_json::from_str` of an object, `Map::get` of a member, then
/// `serde_json::to_string` of the member.
#[verifier::external_body]
fn member_text(args: &str, key: &str) -> (r: Option<String>)
    ensures
        string_opt(r) == json_member_text(args@, key@),
{
    match serde_json::from_str::<serde_json::Map<String, serde_json::Value>>(args) {
        Ok(m) => match m.get(key) {
            Some(v) => serde_json::to_string(v).ok(),
            None => None,
        },
        Err(_) => None,
    }
}

/// `serde_json::from_str` of a list of strings.
#[verifier::external_body]
fn text_list(text: &str) -> (r: Option<Vec<String>>)
    ensures
        match r {
            Some(v) => json_text_list(text@) == Some(texts_of(v@)),
            None => json_text_list(text@) is None,
        },
{
    serde_json::from_str::<Vec<String>>(text).ok()
}

/// The prompt and images a tool call runs with, from its arguments (the
/// JSON text of an object, or none): with a schema, the prompt is the
/// arguments object written as JSON (`{}` when there are none) and there
/// are no images; otherwise the prompt is the `prompt` member written as
/// JSON (`null` when absent), and the images are the `images` member when
/// it is a list of strings, else none.
pub open spec fn tool_inputs_spec(mode: ToolInputMode, args: Option<Seq<char>>) -> Result<
    (Seq<char>, Seq<Seq<char>>),
    ToolCallError,
> {
    match mode {
        ToolInputMode::Structured => match args {
            None => Ok(("{}"@, Seq::empty())),
            Some(a) => match json_object_text(a) {
                Some(t) => Ok((t, Seq::empty())),
                None => Err(ToolCallError::ArgumentsNotObject),
            },
        },
        ToolInputMode::PromptAndImages => {
            let prompt = match args {
                Some(a) => match json_member_text(a, "prompt"@) {
                    Some(p) => p,
                    None => "null"@,
                },
                None => "null"@,
            };
            let images = match args {
                Some(a) => match json_member_text(a, "images"@) {
                    Some(t) => match json_text_list(t) {
                        Some(v) => v,
                        None => Seq::empty(),
                    },
                    None => Seq::empty(),
                },
                None => Seq::empty(),
            };
            Ok((prompt, images))
        },
    }
}

/// Without a schema a tool call always runs: its prompt is the `prompt`
/// member (`null` when absent), and its images are the `images` member
/// whenever that is a list of strings, whatever else the arguments hold,
/// with or without a prompt.
pub proof fn lemma_images_follow_their_member(args: Seq<char>)
    ensures
        tool_inputs_spec(ToolInputMode::PromptAndImages, Some(args)) is Ok,
        json_member_text(args, "prompt"@) is Some ==> tool_inputs_spec(
            ToolInputMode::PromptAndImages,
            Some(args),
        )->Ok_0.0 == json_member_text(args, "prompt"@)->Some_0,
        forall|t: Seq<char>|
            json_member_text(args, "images"@) == Some(t) && #[trigger] json_text_list(t) is Some
                ==> tool_inputs_spec(ToolInputMode::PromptAndImages, Some(args))->Ok_0.1 == json_text_list(
                t,
            )->Some_0,
{
}

/// With a schema a tool call never has images: its prompt is the arguments
/// object written as JSON (`{}` when there are no arguments), and it fails
/// exactly when the arguments are not a JSON object.
pub proof fn lemma_structured_takes_the_object(args: Option<Seq<char>>)
    ensures
        tool_inputs_spec(ToolInputMode::Structured, args) is Err <==> (args is Some && json_object_text(
            args->Some_0,
        ) is None),
        tool_inputs_spec(ToolInputMode::Structured, args) is Ok ==> tool_inputs_spec(
            ToolInputMode::Structured,
            args,
        )->Ok_0.1.len() == 0,
        args is Some && json_object_text(args->Some_0) is Some ==> tool_inputs_spec(
            ToolInputMode::Structured,
            args,
        )->Ok_0.0 == json_object_text(args->Some_0)->Some_0,
{
}

/// The prompt and images a tool call runs with; see [`tool_inputs_spec`].
pub fn tool_call_inputs(mode: ToolInputMode, args: Option<&str>) -> (r: Result<(String, Vec<String>), ToolCallError>)
    ensures
        match r {
            Ok((p, v)) => tool_inputs_spec(mode, text_opt(args)) == Ok::<(Seq<char>, Seq<Seq<char>>), ToolCallError>((p@, texts_of(v@))),
            Err(e) => tool_inputs_spec(mode, text_opt(args)) == Err::<(Seq<char>, Seq<Seq<char>>), ToolCallError>(e),
        },
{
    proof {
        reveal_strlit("{}");
        reveal_strlit("null");
        reveal_strlit("prompt");
        reveal_strlit("images");
    }
    let none: Vec<String> = Vec::new();
    assert(texts_of(none@) =~= Seq::<Seq<char>>::empty());
    match mode {
        ToolInputMode::Structured => match args {
            None => Ok((owned("{}"), none)),
            Some(a) => match object_text(a) {
                Some(t) => Ok((t, none)),
                None => Err(ToolCallError::ArgumentsNotObject),
            },
        },
        ToolInputMode::PromptAndImages => {
            let prompt = match args {
                Some(a) => match member_text(a, "prompt") {
                    Some(p) => p,
                    None => owned("null"),
                },
                None => owned("null"),
            };
            let images = match args {
                Some(a) => match member_text(a, "images") {
                    Some(t) => match text_list(t.as_str()) {
                        Some(v) => v,
                        None => none,
                    },
                    None => none,
                },
                None => none,
            };
            Ok((prompt, images))
        },
    }
}

/// One run's outputs as the object they are answered with: each label once,
/// in ascending order, holding the last value sent under it (values are
/// JSON text).
pub fn collect_outputs(outputs: &Vec<(String, String)>) -> (r: Vec<(String, String)>)
    ensures
        names_ascending(text_pairs(r@)),
        last_wins(text_pairs(r@)) == last_wins(text_pairs(outputs@)),
{
    merge_last_wins(outputs)
}

} // verus!
