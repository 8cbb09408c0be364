//! Two requests joined into a pipeline.

use crate::command::{CommandSpec, CommandSpecView, Routing};
use crate::handle::{take, ChildHandle, OutputSlot, TakeError};
use crate::outcome::{InvokeError, InvokeErrorView};
use vstd::prelude::*;
use vstd::string::*;

verus! {

/// Two requests joined: what the first process writes to its standard output
/// is what the second reads from its standard input.
///
/// The first request's standard output always goes to a pipe and the second
/// request's standard input is always connected, so the output of the first
/// has exactly one reader, the second process, and never the invoker.
#[derive(Debug, PartialEq, Eq)]
pub struct PipelineSpec {
    first: CommandSpec,
    second: CommandSpec,
}

/// What the second stage gets for its standard input from the handle of the
/// first: the output stream if it is there to be taken, else a launch error.
pub open spec fn connection<S>(slot: OutputSlot<S>) -> Result<S, InvokeErrorView> {
    match take(slot).1 {
        Ok(stream) => Ok(stream),
        Err(TakeError::NotCaptured) => Err(
            InvokeErrorView::Launch { detail: "the first stage's output is not captured"@ },
        ),
        Err(TakeError::AlreadyTaken) => Err(
            InvokeErrorView::Launch { detail: "the first stage's output was already taken"@ },
        ),
    }
}

/// The content of the outcome of connecting two stages.
pub open spec fn connection_view<S>(outcome: Result<S, InvokeError>) -> Result<
    S,
    InvokeErrorView,
> {
    match outcome {
        Ok(stream) => Ok(stream),
        Err(error) => Err(error@),
    }
}

impl PipelineSpec {
    /// The request that the first stage is launched with.
    pub closed spec fn source(&self) -> CommandSpecView {
        self.first@
    }

    /// The request that the second stage is launched with.
    pub closed spec fn sink(&self) -> CommandSpecView {
        self.second@
    }

    #[verifier::type_invariant]
    spec fn joined(&self) -> bool {
        &&& self.first@.stdout == Routing::Capture
        &&& self.second@.stdin == Routing::Connect
    }

    /// Joins `first` and `second`. Whatever they asked for, the standard
    /// output of `first` goes to a pipe and the standard input of `second` is
    /// connected; everything else stays as requested.
    pub fn new(first: CommandSpec, second: CommandSpec) -> (pipeline: PipelineSpec)
        ensures
            pipeline.source() == (CommandSpecView { stdout: Routing::Capture, ..first@ }),
            pipeline.sink() == (CommandSpecView { stdin: Routing::Connect, ..second@ }),
    {
        PipelineSpec {
            first: first.stdout(Routing::Capture),
            second: second.stdin(Routing::Connect),
        }
    }

    /// The first stage, whose output feeds the second.
    pub fn first(&self) -> (spec: &CommandSpec)
        ensures
            spec@ == self.source(),
            spec@.stdout == Routing::Capture,
    {
        proof {
            use_type_invariant(self);
        }
        &self.first
    }

    /// The second stage, whose result is the pipeline's.
    pub fn second(&self) -> (spec: &CommandSpec)
        ensures
            spec@ == self.sink(),
            spec@.stdin == Routing::Connect,
    {
        proof {
            use_type_invariant(self);
        }
        &self.second
    }

    /// Takes the output stream of the launched first stage, to be the
    /// standard input of the second. The stream leaves the handle for good.
    /// Where there is none to take, the second stage cannot be launched.
    pub fn connect<S>(first: &mut ChildHandle<S>) -> (stream: Result<S, InvokeError>)
        ensures
            final(first).id() == old(first).id(),
            final(first).output() == take(old(first).output()).0,
            final(first).output() !is Ready,
            connection_view(stream) == connection(old(first).output()),
    {
        match first.take_output() {
            Ok(stream) => Ok(stream),
            Err(TakeError::NotCaptured) => Err(
                InvokeError::Launch {
                    detail: String::from_str("the first stage's output is not captured"),
                },
            ),
            Err(TakeError::AlreadyTaken) => Err(
                InvokeError::Launch {
                    detail: String::from_str("the first stage's output was already taken"),
                },
            ),
        }
    }
}

/// In every pipeline the first stage writes to a pipe and the second stage
/// reads from it. The first stage by itself is launchable exactly when its
/// standard input is not connected and its standard error is not; the second
/// stage is launchable with the first's stream exactly when its own outputs
/// are not connected.
pub proof fn lemma_pipeline_routing(first: CommandSpecView, second: CommandSpecView)
    ensures
        ({
            let source = CommandSpecView { stdout: Routing::Capture, ..first };
            let sink = CommandSpecView { stdin: Routing::Connect, ..second };
            &&& source.launchable(false) <==> first.stdin != Routing::Connect && first.stderr
                != Routing::Connect
            &&& sink.launchable(true) <==> second.stdout != Routing::Connect && second.stderr
                != Routing::Connect
            &&& !sink.launchable(false)
        }),
{
}

} // verus!
