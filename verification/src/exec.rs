//! Running workflows from the command line: the arguments of a run, where its
//! prompt and workflow come from, and the chain of runs that a workflow can
//! hand on to the next.
use vstd::prelude::*;

use crate::text::{owned, same_text};

verus! {

/// The arguments of one execution. Paths are kept as text.
#[derive(Clone, Debug, PartialEq, Eq)]
pub struct ExecArgs {
    /// The workflow to run: a file, a name in the store, or `__default__`.
    pub workflow: String,
    /// The first user prompt, if the workflow asks for one; `-` reads it from
    /// standard input.
    pub input: Option<String>,
    /// A file holding the first prompt; it wins over `input`.
    pub input_file: Option<String>,
    /// Images for the first run: file paths or data URLs.
    pub images: Vec<String>,
    /// A directory to save each output in as a file of its own.
    pub out_dir: Option<String>,
    /// How many chained runs may follow the first.
    pub autoruns: usize,
    /// Print what would run next after the last run.
    pub show_next: bool,
    /// Add the workflow id and the run number to the outputs.
    pub show_ids: bool,
    /// Pretty-print console output.
    pub pretty: bool,
}

impl Default for ExecArgs {
    fn default() -> (r: Self)
        ensures
            r.workflow@.len() == 0,
            r.input is None,
            r.input_file is None,
            r.images@.len() == 0,
            r.out_dir is None,
            r.autoruns == 0,
            !r.show_next && !r.show_ids && !r.pretty,
    {
        ExecArgs {
            workflow: String::new(),
            input: None,
            input_file: None,
            images: Vec::new(),
            out_dir: None,
            autoruns: 0,
            show_next: false,
            show_ids: false,
            pretty: false,
        }
    }
}

/// Whether a count is zero (a count of zero is left out when arguments are saved).
pub fn is_zero(value: &usize) -> (r: bool)
    ensures
        r == (*value == 0),
{
    *value == 0
}

/// Why an execution could not start.
#[derive(Clone, Debug, PartialEq, Eq)]
pub enum ExecError {
    /// Chained runs were asked for, but there is no workflow store to chain from.
    AutorunWithoutStore,
    /// The workflow named is no file, and there is no store to look it up in.
    InvalidWorkflow(String),
}

/// Chained runs need a workflow store to load the next workflow from.
pub fn check_autoruns(args: &ExecArgs, has_workflow_store: bool) -> (r: Result<(), ExecError>)
    ensures
        (args.autoruns > 0 && !has_workflow_store) ==> r == Err::<(), ExecError>(
            ExecError::AutorunWithoutStore,
        ),
        !(args.autoruns > 0 && !has_workflow_store) ==> r is Ok,
{
    if args.autoruns > 0 && !has_workflow_store {
        Err(ExecError::AutorunWithoutStore)
    } else {
        Ok(())
    }
}

/// How the first prompt is obtained: the given text, standard input when that
/// text is `-`, and a prompt file over both.
#[derive(Clone, Debug, PartialEq, Eq)]
pub struct PromptPlan {
    pub text: String,
    pub read_stdin: bool,
    pub file: Option<String>,
}

/// The prompt that the reads give: the file's text when a file is read, else
/// what standard input held when it is read, else the given text.
pub open spec fn planned_prompt(
    plan: PromptPlan,
    stdin_text: Option<Seq<char>>,
    file_text: Option<Seq<char>>,
) -> Seq<char> {
    if plan.file is Some && file_text is Some {
        file_text->0
    } else if plan.read_stdin && stdin_text is Some {
        stdin_text->0
    } else {
        plan.text@
    }
}

impl PromptPlan {
    /// The plan for `args`: the input text (empty when none is given), read
    /// from standard input when it is `-`, and replaced by the input file when
    /// one is given.
    pub fn of(args: &ExecArgs) -> (r: PromptPlan)
        ensures
            r.text@ == (match args.input {
                Some(t) => t@,
                None => Seq::<char>::empty(),
            }),
            r.read_stdin == (r.text@ == "-"@),
            r.file == args.input_file,
    {
        let text = match &args.input {
            Some(t) => t.clone(),
            None => String::new(),
        };
        let read_stdin = same_text(text.as_str(), "-");
        PromptPlan { text, read_stdin, file: args.input_file.clone() }
    }

    /// The prompt once the reads the plan asks for are done: `stdin_text` is
    /// what standard input held, `file_text` what the prompt file held.
    pub fn resolve(self, stdin_text: Option<String>, file_text: Option<String>) -> (r: String)
        ensures
            r@ == planned_prompt(
                self,
                match stdin_text {
                    Some(s) => Some(s@),
                    None => None,
                },
                match file_text {
                    Some(s) => Some(s@),
                    None => None,
                },
            ),
    {
        let plan_file = self.file.is_some();
        let read_stdin = self.read_stdin;
        match file_text {
            Some(f) if plan_file => f,
            _ => match stdin_text {
                Some(s) if read_stdin => s,
                _ => self.text,
            },
        }
    }
}

/// Where the workflow of a run comes from.
#[derive(Clone, Debug, PartialEq, Eq)]
pub enum WorkflowSource {
    /// The built-in default workflow.
    Default,
    /// A YAML file at this path.
    File(String),
    /// The workflow of this name in the store.
    Store(String),
}

/// Where the workflow named `name` comes from: `__default__` is the built-in
/// one; a name that is a file (`is_file`) is read from it; any other name is
/// looked up in the store, which must exist.
pub fn workflow_source(name: &str, is_file: bool, has_store: bool) -> (r: Result<
    WorkflowSource,
    ExecError,
>)
    ensures
        name@ == "__default__"@ ==> r == Ok::<WorkflowSource, ExecError>(WorkflowSource::Default),
        name@ != "__default__"@ ==> match r {
            Ok(WorkflowSource::File(p)) => is_file && p@ == name@,
            Ok(WorkflowSource::Store(n)) => !is_file && has_store && n@ == name@,
            Err(ExecError::InvalidWorkflow(n)) => !is_file && !has_store && n@ == name@,
            _ => false,
        },
{
    if same_text(name, "__default__") {
        Ok(WorkflowSource::Default)
    } else if is_file {
        Ok(WorkflowSource::File(owned(name)))
    } else if has_store {
        Ok(WorkflowSource::Store(owned(name)))
    } else {
        Err(ExecError::InvalidWorkflow(owned(name)))
    }
}

// ---------------------------------------------------------------------------
// Decimal text

/// The digit character for `d` below ten.
pub open spec fn digit_char(d: int) -> char {
    if d == 0 {
        '0'
    } else if d == 1 {
        '1'
    } else if d == 2 {
        '2'
    } else if d == 3 {
        '3'
    } else if d == 4 {
        '4'
    } else if d == 5 {
        '5'
    } else if d == 6 {
        '6'
    } else if d == 7 {
        '7'
    } else if d == 8 {
        '8'
    } else {
        '9'
    }
}

/// The decimal text of `n`, without sign or leading zeros.
pub open spec fn decimal(n: nat) -> Seq<char>
    decreases n,
{
    if n < 10 {
        seq![digit_char(n as int)]
    } else {
        decimal(n / 10).push(digit_char((n % 10) as int))
    }
}

fn digit_text(d: u64) -> (r: &'static str)
    requires
        d < 10,
    ensures
        r@ == seq![digit_char(d as int)],
{
    proof {
        reveal_strlit("0");
        reveal_strlit("1");
        reveal_strlit("2");
        reveal_strlit("3");
        reveal_strlit("4");
        reveal_strlit("5");
        reveal_strlit("6");
        reveal_strlit("7");
        reveal_strlit("8");
        reveal_strlit("9");
    }
    if d == 0 {
        "0"
    } else if d == 1 {
        "1"
    } else if d == 2 {
        "2"
    } else if d == 3 {
        "3"
    } else if d == 4 {
        "4"
    } else if d == 5 {
        "5"
    } else if d == 6 {
        "6"
    } else if d == 7 {
        "7"
    } else if d == 8 {
        "8"
    } else {
        "9"
    }
}

/// The decimal text of `n`, as `to_string` writes it.
pub fn decimal_text(n: u64) -> (r: String)
    ensures
        r@ == decimal(n as nat),
    decreases n,
{
    if n < 10 {
        owned(digit_text(n))
    } else {
        let mut s = decimal_text(n / 10);
        s.append(digit_text(n % 10));
        s
    }
}

} // verus!

verus! {

// ---------------------------------------------------------------------------
// Chained runs

/// A value a run sends to identify itself.
#[derive(Clone, Debug, PartialEq, Eq)]
pub enum IdValue {
    Text(String),
    Integer(i64),
}

/// What follows a finished run.
#[derive(Clone, Debug, PartialEq, Eq)]
pub enum ChainStep {
    /// Load the workflow of this name from the store and run it.
    Load(String),
    /// The chain is over.
    Stop,
}

/// The state of a chain of runs: the first run, then up to `autoruns` more,
/// each started by the workflow the previous one handed on.
#[derive(Clone, Debug)]
pub struct RunChain {
    autoruns: usize,
    run_count: usize,
    prompt: String,
    images: Vec<String>,
    done: bool,
}

impl RunChain {
    /// How many chained runs may follow the first.
    pub closed spec fn autoruns_spec(&self) -> nat {
        self.autoruns as nat
    }

    /// The index of the current run, from 0.
    pub closed spec fn run_index(&self) -> nat {
        self.run_count as nat
    }

    /// The prompt the current run takes.
    pub closed spec fn prompt_spec(&self) -> Seq<char> {
        self.prompt@
    }

    /// The images the current run takes.
    pub closed spec fn images_spec(&self) -> Seq<String> {
        self.images@
    }

    /// Whether the chain is over.
    pub closed spec fn is_done(&self) -> bool {
        self.done
    }

    /// A chain never goes past its last allowed run.
    pub closed spec fn wf(&self) -> bool {
        self.run_count <= self.autoruns
    }

    /// A chain at its first run.
    pub fn new(autoruns: usize, prompt: String, images: Vec<String>) -> (r: Self)
        ensures
            r.wf(),
            r.autoruns_spec() == autoruns,
            r.run_index() == 0,
            r.prompt_spec() == prompt@,
            r.images_spec() == images@,
            !r.is_done(),
    {
        RunChain { autoruns, run_count: 0, prompt, images, done: false }
    }

    /// The index of the current run, from 0.
    pub fn run_count(&self) -> (r: usize)
        ensures
            r == self.run_index(),
    {
        self.run_count
    }

    /// The number the current run is shown with: its index plus one.
    pub fn run_number(&self) -> (r: u64)
        requires
            self.run_index() < u64::MAX,
        ensures
            r == self.run_index() + 1,
    {
        (self.run_count as u64) + 1
    }

    /// The extra outputs a run sends when ids are shown: `__id` with the
    /// workflow's id as text, then `__run` with the run's number; none
    /// otherwise.
    pub fn id_outputs(&self, show_ids: bool, workflow_id: String) -> (r: Vec<(String, IdValue)>)
        requires
            self.run_index() < i64::MAX,
        ensures
            !show_ids ==> r@.len() == 0,
            show_ids ==> r@.len() == 2 && r@[0].0@ == "__id"@ && r@[0].1 == IdValue::Text(workflow_id)
                && r@[1].0@ == "__run"@ && r@[1].1 == IdValue::Integer((self.run_index() + 1) as i64),
    {
        let mut out: Vec<(String, IdValue)> = Vec::new();
        if show_ids {
            out.push((owned("__id"), IdValue::Text(workflow_id)));
            out.push((owned("__run"), IdValue::Integer((self.run_count as i64) + 1)));
        }
        out
    }

    /// Whether the chain is over.
    pub fn done(&self) -> (r: bool)
        ensures
            r == self.is_done(),
    {
        self.done
    }

    /// Local image files may be read on the first run only; later runs take
    /// what a workflow handed on, which must not reach the local disk.
    pub fn allow_local(&self) -> (r: bool)
        ensures
            r == (self.run_index() == 0),
    {
        self.run_count == 0
    }

    /// The images the current run takes.
    pub fn images(&self) -> (r: &Vec<String>)
        ensures
            r@ == self.images_spec(),
    {
        &self.images
    }

    /// Hands the prompt to the current run, leaving it empty.
    pub fn take_prompt(&mut self) -> (r: String)
        ensures
            r@ == old(self).prompt_spec(),
            final(self).prompt_spec() == Seq::<char>::empty(),
            final(self).run_index() == old(self).run_index(),
            final(self).autoruns_spec() == old(self).autoruns_spec(),
            final(self).images_spec() == old(self).images_spec(),
            final(self).is_done() == old(self).is_done(),
            final(self).wf() == old(self).wf(),
    {
        let mut p = String::new();
        std::mem::swap(&mut p, &mut self.prompt);
        p
    }

    /// The name of the directory the current run saves its outputs in, below
    /// the output directory: the run index when runs may chain, none otherwise.
    pub fn output_subdir(&self) -> (r: Option<String>)
        ensures
            self.autoruns_spec() > 0 ==> (r matches Some(s) && s@ == decimal(self.run_index())),
            self.autoruns_spec() == 0 ==> r is None,
    {
        if self.autoruns > 0 {
            Some(decimal_text(self.run_count as u64))
        } else {
            None
        }
    }

    /// Whether another run may follow the current one; only then is what the
    /// workflow handed on taken up.
    pub fn may_chain(&self) -> (r: bool)
        ensures
            r == (self.run_index() < self.autoruns_spec()),
    {
        self.run_count < self.autoruns
    }

    /// After the last allowed run the chain is over.
    pub fn finish(&mut self)
        requires
            old(self).wf(),
            old(self).run_index() == old(self).autoruns_spec(),
        ensures
            final(self).wf(),
            final(self).is_done(),
            final(self).run_index() == old(self).run_index(),
            final(self).autoruns_spec() == old(self).autoruns_spec(),
            final(self).prompt_spec() == old(self).prompt_spec(),
            final(self).images_spec() == old(self).images_spec(),
    {
        self.done = true;
    }

    /// Takes up what a finished run handed on: a next prompt replaces the
    /// prompt, the next images replace the images, and a next workflow that
    /// the store can load starts the next run. Without a next workflow or a
    /// store the chain is over.
    pub fn advance(
        &mut self,
        next_prompt: Option<String>,
        next_images: Vec<String>,
        next_workflow: Option<String>,
        has_store: bool,
    ) -> (r: ChainStep)
        requires
            old(self).wf(),
            !old(self).is_done(),
            old(self).run_index() < old(self).autoruns_spec(),
        ensures
            final(self).wf(),
            final(self).autoruns_spec() == old(self).autoruns_spec(),
            final(self).prompt_spec() == (match next_prompt {
                Some(p) => p@,
                None => old(self).prompt_spec(),
            }),
            final(self).images_spec() == next_images@,
            match next_workflow {
                Some(w) if has_store => r == ChainStep::Load(w) && !final(self).is_done()
                    && final(self).run_index() == old(self).run_index() + 1,
                _ => r == ChainStep::Stop && final(self).is_done() && final(self).run_index()
                    == old(self).run_index(),
            },
    {
        if let Some(p) = next_prompt {
            self.prompt = p;
        }
        self.images = next_images;
        match next_workflow {
            Some(w) if has_store => {
                self.run_count = self.run_count + 1;
                ChainStep::Load(w)
            },
            _ => {
                self.done = true;
                ChainStep::Stop
            },
        }
    }
}

} // verus!
