//! Results of finished processes and their reduction to success or failure.

use crate::text::{captured_text, decode, lemma_encoded_text_round_trips};
use vstd::prelude::*;
use vstd::string::*;

verus! {

/// The outcome of a process that has terminated.
///
/// `stdout` and `stderr` hold what was captured, in full; a stream that was
/// not captured is empty.
#[derive(Debug, Clone, PartialEq, Eq)]
pub struct ExitResult {
    pub success: bool,
    pub stdout: Vec<u8>,
    pub stderr: Vec<u8>,
}

/// Success is exit code zero. Any other code is failure, and so is a
/// termination that left no code, as by a signal.
pub open spec fn exit_code_succeeds(code: Option<i32>) -> bool {
    code == Some(0i32)
}

impl ExitResult {
    /// Builds the result of a terminated process from its exit code, `None`
    /// when it was terminated without one, and from what was captured.
    pub fn from_exit_code(code: Option<i32>, stdout: Vec<u8>, stderr: Vec<u8>) -> (result:
        ExitResult)
        ensures
            result.success == exit_code_succeeds(code),
            result.stdout == stdout,
            result.stderr == stderr,
    {
        let success = match code {
            Some(value) => value == 0,
            None => false,
        };
        ExitResult { success, stdout, stderr }
    }

    /// The captured standard output as text.
    pub fn stdout_text(&self) -> (text: String)
        ensures
            text@ == captured_text(self.stdout@),
    {
        decode(self.stdout.as_slice())
    }

    /// The captured standard error as text.
    pub fn stderr_text(&self) -> (text: String)
        ensures
            text@ == captured_text(self.stderr@),
    {
        decode(self.stderr.as_slice())
    }
}

/// Which helper ran the command: a program with its arguments, or a string
/// handed to the shell.
#[derive(Debug, Clone, Copy, PartialEq, Eq)]
pub enum Helper {
    Command,
    Shell,
}

/// What can go wrong with an invocation.
///
/// A process that ran and exited with a failure status is not an error by
/// itself; only the helpers turn it into `Exit`, which carries the text the
/// process wrote to its standard error.
#[derive(Debug, Clone, PartialEq, Eq)]
pub enum InvokeError {
    /// The program could not be found or executed.
    Launch { detail: String },
    /// Waiting for the process to terminate failed.
    Wait { detail: String },
    /// Reading a line of streamed output failed.
    Read { detail: String },
    /// The process ran and reported failure.
    Exit { helper: Helper, stderr: String },
}

/// The mathematical content of an `InvokeError`.
pub enum InvokeErrorView {
    Launch { detail: Seq<char> },
    Wait { detail: Seq<char> },
    Read { detail: Seq<char> },
    Exit { helper: Helper, stderr: Seq<char> },
}

impl View for InvokeError {
    type V = InvokeErrorView;

    open spec fn view(&self) -> InvokeErrorView {
        match *self {
            InvokeError::Launch { detail } => InvokeErrorView::Launch { detail: detail@ },
            InvokeError::Wait { detail } => InvokeErrorView::Wait { detail: detail@ },
            InvokeError::Read { detail } => InvokeErrorView::Read { detail: detail@ },
            InvokeError::Exit { helper, stderr } => InvokeErrorView::Exit {
                helper,
                stderr: stderr@,
            },
        }
    }
}

/// The words that introduce the error text of a failed helper.
pub open spec fn failure_prefix(helper: Helper) -> Seq<char> {
    match helper {
        Helper::Command => "Command failed with error: "@,
        Helper::Shell => "Shell command failed with error: "@,
    }
}

impl InvokeErrorView {
    /// The single descriptive line shown for the error: for a failed exit the
    /// kind of failure followed by the diagnostic text of the process, for the
    /// others the detail reported by the operating system.
    pub open spec fn message(self) -> Seq<char> {
        match self {
            InvokeErrorView::Launch { detail } => detail,
            InvokeErrorView::Wait { detail } => detail,
            InvokeErrorView::Read { detail } => detail,
            InvokeErrorView::Exit { helper, stderr } => failure_prefix(helper) + stderr,
        }
    }
}

impl InvokeError {
    /// The descriptive line for this error.
    pub fn message(&self) -> (text: String)
        ensures
            text@ == self@.message(),
    {
        match self {
            InvokeError::Launch { detail } => detail.clone(),
            InvokeError::Wait { detail } => detail.clone(),
            InvokeError::Read { detail } => detail.clone(),
            InvokeError::Exit { helper, stderr } => {
                let prefix = match helper {
                    Helper::Command => "Command failed with error: ",
                    Helper::Shell => "Shell command failed with error: ",
                };
                String::from_str(prefix).concat(stderr.as_str())
            },
        }
    }
}

/// The mathematical content of a helper's outcome.
pub open spec fn outcome_view(outcome: Result<String, InvokeError>) -> Result<
    Seq<char>,
    InvokeErrorView,
> {
    match outcome {
        Ok(text) => Ok(text@),
        Err(error) => Err(error@),
    }
}

/// The reduction of a finished process to a single outcome: its output on
/// success, an error that carries its diagnostic text on failure.
pub open spec fn reduction(helper: Helper, success: bool, stdout: Seq<char>, stderr: Seq<char>)
    -> Result<Seq<char>, InvokeErrorView> {
    if success {
        Ok(stdout)
    } else {
        Err(InvokeErrorView::Exit { helper, stderr })
    }
}

/// The outcome that a helper reports for a finished process, from what the
/// process left behind.
pub open spec fn classification(helper: Helper, success: bool, stdout: Seq<u8>, stderr: Seq<u8>)
    -> Result<Seq<char>, InvokeErrorView> {
    reduction(helper, success, captured_text(stdout), captured_text(stderr))
}

/// Reduces a finished process, whose output has been decoded, to success with
/// its standard output or failure with its standard error.
pub fn reduce(helper: Helper, success: bool, stdout: String, stderr: String) -> (outcome: Result<
    String,
    InvokeError,
>)
    ensures
        outcome == (if success {
            Ok::<String, InvokeError>(stdout)
        } else {
            Err::<String, InvokeError>(InvokeError::Exit { helper, stderr })
        }),
        outcome_view(outcome) == reduction(helper, success, stdout@, stderr@),
{
    if success {
        Ok(stdout)
    } else {
        Err(InvokeError::Exit { helper, stderr })
    }
}

/// Classifies the result of a finished process: on success the decoded
/// standard output, on failure an error with the decoded standard error.
pub fn classify(helper: Helper, result: &ExitResult) -> (outcome: Result<String, InvokeError>)
    ensures
        outcome_view(outcome) == classification(
            helper,
            result.success,
            result.stdout@,
            result.stderr@,
        ),
{
    if result.success {
        reduce(helper, true, result.stdout_text(), String::new())
    } else {
        reduce(helper, false, String::new(), result.stderr_text())
    }
}

/// A process that exits with a code other than zero, or with none, is always
/// classified as a failure, and the failure carries the text of its standard
/// error, whatever it wrote to its standard output. Two such runs that leave
/// the same standard error are classified alike.
pub proof fn lemma_failure_is_classified_alike(
    helper: Helper,
    code: Option<i32>,
    other_code: Option<i32>,
    stdout: Seq<u8>,
    other_stdout: Seq<u8>,
    stderr: Seq<u8>,
)
    requires
        code != Some(0i32),
        other_code != Some(0i32),
    ensures
        !exit_code_succeeds(code),
        classification(helper, exit_code_succeeds(code), stdout, stderr) == Err::<
            Seq<char>,
            InvokeErrorView,
        >(InvokeErrorView::Exit { helper, stderr: captured_text(stderr) }),
        classification(helper, exit_code_succeeds(code), stdout, stderr) == classification(
            helper,
            exit_code_succeeds(other_code),
            other_stdout,
            stderr,
        ),
{
}

/// A process that succeeds after writing the UTF-8 encoding of `text` to its
/// standard output is classified as success with exactly `text`.
pub proof fn lemma_echo_round_trips(helper: Helper, text: Seq<char>, stderr: Seq<u8>)
    ensures
        classification(helper, exit_code_succeeds(Some(0i32)), vstd::utf8::encode_utf8(text), stderr)
            == Ok::<Seq<char>, InvokeErrorView>(text),
{
    lemma_encoded_text_round_trips(text);
}

} // verus!
