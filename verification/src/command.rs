//! Runs of the zellij command: what they print, what that means, and the steps of a task
//! that needs several of them.
use crate::number::{signed_decimal, signed_decimal_spec};
use crate::outside::{from_utf8_lossy, text_of};
use crate::schema::outcome;
use crate::text::{contains, contains_spec, trim, trim_spec};
use vstd::prelude::*;

verus! {

/// What a finished run of `zellij` left behind.
#[derive(Debug)]
pub struct CommandOutput {
    /// Whether it reported success.
    pub success: bool,
    /// Its exit code, where it exited with one.
    pub code: Option<i32>,
    /// What it printed.
    pub stdout: Vec<u8>,
    /// What it printed about errors.
    pub stderr: Vec<u8>,
}

/// What a [`CommandOutput`] says.
#[verifier::ext_equal]
pub struct OutputModel {
    pub success: bool,
    pub code: Option<i32>,
    pub stdout: Seq<u8>,
    pub stderr: Seq<u8>,
}

impl DeepView for CommandOutput {
    type V = OutputModel;

    open spec fn deep_view(&self) -> OutputModel {
        OutputModel {
            success: self.success,
            code: self.code,
            stdout: self.stdout@,
            stderr: self.stderr@,
        }
    }
}

/// What running a command came to: its output, or the words in which starting it failed.
pub type Run = Result<CommandOutput, String>;

/// What a [`Run`] says.
pub type RunModel = Result<OutputModel, Seq<char>>;

/// A [`CommandOutput`] whose bytes have been read as text.
#[derive(Debug)]
pub struct CommandText {
    pub success: bool,
    pub code: Option<i32>,
    pub stdout: String,
    pub stderr: String,
}

/// What a [`CommandText`] says.
#[verifier::ext_equal]
pub struct TextModel {
    pub success: bool,
    pub code: Option<i32>,
    pub stdout: Seq<char>,
    pub stderr: Seq<char>,
}

impl DeepView for CommandText {
    type V = TextModel;

    open spec fn deep_view(&self) -> TextModel {
        TextModel {
            success: self.success,
            code: self.code,
            stdout: self.stdout@,
            stderr: self.stderr@,
        }
    }
}

/// A run whose output has been read as text.
pub open spec fn run_text(run: RunModel) -> Result<TextModel, Seq<char>> {
    match run {
        Ok(output) => Ok(
            TextModel {
                success: output.success,
                code: output.code,
                stdout: text_of(output.stdout),
                stderr: text_of(output.stderr),
            },
        ),
        Err(e) => Err(e),
    }
}

/// An exit code in words: `Some(<code>)`, or `None` where there is no code.
pub open spec fn code_text(code: Option<i32>) -> Seq<char> {
    match code {
        Some(code) => "Some("@ + signed_decimal_spec(code as int) + ")"@,
        None => "None"@,
    }
}

/// The words in which a run of `context` that failed is reported: its exit code and what it
/// printed about errors, or else what it printed at all.
pub open spec fn failure_text(output: TextModel, context: Seq<char>) -> Seq<char> {
    let stderr = trim_spec(output.stderr);
    let stdout = trim_spec(output.stdout);
    "zellij "@ + context + " failed (exit "@ + code_text(output.code) + "): "@ + stderr + (
    if stderr.len() == 0 && stdout.len() > 0 {
        " / stdout: "@ + stdout
    } else {
        seq![]
    })
}

/// What a run of `context` printed, if it succeeded.
pub open spec fn printed(run: Result<TextModel, Seq<char>>, context: Seq<char>) -> Result<
    Seq<char>,
    Seq<char>,
> {
    match run {
        Err(e) => Err("failed to spawn zellij ("@ + context + "): "@ + e),
        Ok(output) => if output.success {
            Ok(output.stdout)
        } else {
            Err(failure_text(output, context))
        },
    }
}

/// What a run of `context` printed, if it succeeded.
pub open spec fn captured(run: RunModel, context: Seq<char>) -> Result<Seq<char>, Seq<char>> {
    printed(run_text(run), context)
}

/// Whether a run moved the focus: it succeeded, or the pane had the focus already.
pub open spec fn focused(run: Result<TextModel, Seq<char>>) -> Result<(), Seq<char>> {
    if run matches Ok(output) && !output.success && contains_spec(
        trim_spec(output.stderr),
        "already focused"@,
    ) {
        Ok(())
    } else {
        match printed(run, "action focus-pane-id"@) {
            Ok(_) => Ok(()),
            Err(e) => Err(e),
        }
    }
}

/// Whether a message says that zellij does not know the pane.
pub open spec fn pane_not_found(message: Seq<char>) -> bool {
    contains_spec(message, "Pane with id"@) && contains_spec(message, "not found"@)
}

/// An exit code in words.
fn code_words(code: Option<i32>) -> (r: String)
    ensures
        r@ == code_text(code),
{
    match code {
        Some(code) => {
            let mut text = "Some(".to_owned();
            text.append(signed_decimal(code).as_str());
            text.append(")");
            text
        },
        None => "None".to_owned(),
    }
}

/// Reads the output of a run as text.
pub fn read_output(run: &Run) -> (r: Result<CommandText, String>)
    ensures
        outcome(r) == run_text(outcome(*run)),
{
    match run {
        Ok(output) => Ok(
            CommandText {
                success: output.success,
                code: output.code,
                stdout: from_utf8_lossy(output.stdout.as_slice()),
                stderr: from_utf8_lossy(output.stderr.as_slice()),
            },
        ),
        Err(e) => Err(e.clone()),
    }
}

/// What a run of `context` printed, or why it failed.
pub fn printed_text(run: Result<CommandText, String>, context: &str) -> (r: Result<String, String>)
    ensures
        outcome(r) == printed(outcome(run), context@),
{
    match run {
        Err(e) => {
            let mut message = "failed to spawn zellij (".to_owned();
            message.append(context);
            message.append("): ");
            message.append(e.as_str());
            Err(message)
        },
        Ok(output) => {
            if output.success {
                return Ok(output.stdout);
            }
            let stderr = trim(output.stderr.as_str());
            let stdout = trim(output.stdout.as_str());
            let mut message = "zellij ".to_owned();
            message.append(context);
            message.append(" failed (exit ");
            message.append(code_words(output.code).as_str());
            message.append("): ");
            message.append(stderr);
            if stderr.is_empty() && !stdout.is_empty() {
                let mut extra = " / stdout: ".to_owned();
                extra.append(stdout);
                message.append(extra.as_str());
            }
            assert(message@ =~= failure_text(output.deep_view(), context@));
            Err(message)
        },
    }
}

/// What a run of `context` printed, or why it failed.
pub fn run_capturing(run: &Run, context: &str) -> (r: Result<String, String>)
    ensures
        outcome(r) == captured(outcome(*run), context@),
{
    printed_text(read_output(run), context)
}

/// Whether a run of `zellij action focus-pane-id` moved the focus. That the pane has the
/// focus already is no failure.
pub fn focus_text(run: Result<CommandText, String>) -> (r: Result<(), String>)
    ensures
        outcome(r) == focused(outcome(run)),
{
    if let Ok(output) = &run {
        if !output.success && contains(trim(output.stderr.as_str()), "already focused") {
            return Ok(());
        }
    }
    match printed_text(run, "action focus-pane-id") {
        Ok(_) => Ok(()),
        Err(e) => Err(e),
    }
}

/// Whether a run of `zellij action focus-pane-id` moved the focus.
pub fn focus_outcome(run: &Run) -> (r: Result<(), String>)
    ensures
        outcome(r) == focused(run_text(outcome(*run))),
{
    focus_text(read_output(run))
}

/// Whether a message says that zellij does not know the pane.
pub fn is_pane_not_found(message: &str) -> (r: bool)
    ensures
        r == pane_not_found(message@),
{
    contains(message, "Pane with id") && contains(message, "not found")
}

/// What a task does next.
#[derive(Debug)]
pub enum Step<S, T> {
    /// Wait, run `zellij` with `args`, and resume `state` with what that came to.
    Run {
        /// How long to wait first, in milliseconds.
        delay_ms: u64,
        /// The arguments of `zellij`.
        args: Vec<String>,
        /// What resumes the task.
        state: S,
    },
    /// The task is over.
    Done(Result<T, String>),
}

/// What a [`Step`] says.
pub enum StepModel<S, T> {
    Run { delay_ms: int, args: Seq<Seq<char>>, state: S },
    Done(Result<T, Seq<char>>),
}

impl<S: DeepView, T: DeepView> DeepView for Step<S, T> {
    type V = StepModel<S::V, T::V>;

    open spec fn deep_view(&self) -> StepModel<S::V, T::V> {
        match self {
            Step::Run { delay_ms, args, state } => StepModel::Run {
                delay_ms: delay_ms as int,
                args: args.deep_view(),
                state: state.deep_view(),
            },
            Step::Done(result) => StepModel::Done(outcome(*result)),
        }
    }
}

/// The step that a task comes to from `step` when its runs come to `runs`, one after the
/// other, and `next` gives the step after each. A task that is over takes no more runs.
pub open spec fn after<S, T>(
    next: spec_fn(S, RunModel) -> StepModel<S, T>,
    step: StepModel<S, T>,
    runs: Seq<RunModel>,
) -> StepModel<S, T>
    decreases runs.len(),
{
    match step {
        StepModel::Run { delay_ms, args, state } => if runs.len() == 0 {
            step
        } else {
            after(next, next(state, runs[0]), runs.drop_first())
        },
        StepModel::Done(_) => step,
    }
}

} // verus!
