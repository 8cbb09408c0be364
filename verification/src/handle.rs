//! Handles to launched processes and their take-once output stream.

use vstd::prelude::*;

verus! {

/// The place of a process's output stream in its handle.
pub enum OutputSlot<S> {
    /// The output was not captured, so there never was a stream.
    Absent,
    /// The stream is there and has not been taken.
    Ready(S),
    /// The stream was taken and belongs to whoever took it.
    Taken,
}

/// Why an output stream could not be taken.
#[derive(Debug, Clone, Copy, PartialEq, Eq, Structural)]
pub enum TakeError {
    /// The output of the process was not captured.
    NotCaptured,
    /// The stream has been taken before.
    AlreadyTaken,
}

/// What taking the output does to a slot: the slot afterwards, and the stream
/// or the reason why there is none.
pub open spec fn take<S>(slot: OutputSlot<S>) -> (OutputSlot<S>, Result<S, TakeError>) {
    match slot {
        OutputSlot::Ready(s) => (OutputSlot::Taken, Ok(s)),
        OutputSlot::Absent => (OutputSlot::Absent, Err(TakeError::NotCaptured)),
        OutputSlot::Taken => (OutputSlot::Taken, Err(TakeError::AlreadyTaken)),
    }
}

/// A launched process: its identifier and, if its output was captured, the
/// stream to read it from, which can be taken once.
///
/// `S` is the type of the stream, which this library moves and never reads.
pub struct ChildHandle<S> {
    id: u32,
    output: OutputSlot<S>,
}

impl<S> ChildHandle<S> {
    /// The identifier of the process.
    pub closed spec fn id(&self) -> u32 {
        self.id
    }

    /// The state of the output stream.
    pub closed spec fn output(&self) -> OutputSlot<S> {
        self.output
    }

    /// The handle of a process that was just launched, with the stream of its
    /// output if the output was captured.
    pub fn new(id: u32, stream: Option<S>) -> (handle: ChildHandle<S>)
        ensures
            handle.id() == id,
            handle.output() == match stream {
                Some(s) => OutputSlot::Ready(s),
                None => OutputSlot::Absent,
            },
    {
        let output = match stream {
            Some(s) => OutputSlot::Ready(s),
            None => OutputSlot::Absent,
        };
        ChildHandle { id, output }
    }

    /// The identifier of the process.
    pub fn pid(&self) -> (id: u32)
        ensures
            id == self.id(),
    {
        self.id
    }

    /// True while the output stream is there to be taken.
    pub fn has_output(&self) -> (ready: bool)
        ensures
            ready == (self.output() is Ready),
    {
        match &self.output {
            OutputSlot::Ready(_) => true,
            _ => false,
        }
    }

    /// Takes the output stream out of the handle, for streaming or as the
    /// input of another process. This succeeds at most once per handle:
    /// afterwards the handle holds no stream, so no second taker can ever get
    /// the same stream.
    pub fn take_output(&mut self) -> (taken: Result<S, TakeError>)
        ensures
            final(self).id() == old(self).id(),
            final(self).output() == take(old(self).output()).0,
            taken == take(old(self).output()).1,
            final(self).output() !is Ready,
    {
        let mut slot = OutputSlot::Taken;
        core::mem::swap(&mut slot, &mut self.output);
        match slot {
            OutputSlot::Ready(s) => Ok(s),
            OutputSlot::Absent => {
                self.output = OutputSlot::Absent;
                Err(TakeError::NotCaptured)
            },
            OutputSlot::Taken => Err(TakeError::AlreadyTaken),
        }
    }
}

/// However often the output has been taken before, taking it once more after
/// a take fails and changes nothing: a stream is handed out at most once.
pub proof fn lemma_take_once<S>(slot: OutputSlot<S>)
    ensures
        take(take(slot).0).1 is Err,
        take(take(slot).0).0 == take(slot).0,
{
}

} // verus!
