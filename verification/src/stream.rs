//! Streaming capture: the output of a running process as a sequence of text
//! lines, produced while the bytes arrive.
//!
//! The stream does no reading itself. Whoever owns the pipe reads from it and
//! reports each outcome as a `ReadEvent`; the stream answers with the elements
//! that the event adds to the sequence.

use crate::lines::{
    all_lines, complete_lines, join_lines, lemma_joined_lines_split, lemma_remainder_unterminated,
    lemma_split_resumes, lemma_unterminated, line_views, no_line_feed, remainder, trailing_line, trim_cr,
    LineAssembler,
};
use crate::outcome::{outcome_view, InvokeError, InvokeErrorView};
use crate::text::{captured_text, decode};
use vstd::prelude::*;

verus! {

/// Where a stream stands.
#[derive(Debug, Clone, Copy, PartialEq, Eq, Structural)]
pub enum StreamStatus {
    /// More output may arrive.
    Open,
    /// The output was closed; the sequence is complete.
    Ended,
    /// A read failed; the sequence ended early with that error.
    Failed,
}

/// The outcome of one read from the pipe.
#[derive(Debug, Clone, PartialEq, Eq)]
pub enum ReadEvent {
    /// The read delivered these bytes.
    Data(Vec<u8>),
    /// The pipe was closed by the process.
    End,
    /// The read failed, for the reason given.
    Failed(String),
}

/// The mathematical content of a `ReadEvent`.
pub enum ReadEventView {
    Data(Seq<u8>),
    End,
    Failed(Seq<char>),
}

impl View for ReadEvent {
    type V = ReadEventView;

    open spec fn view(&self) -> ReadEventView {
        match *self {
            ReadEvent::Data(bytes) => ReadEventView::Data(bytes@),
            ReadEvent::End => ReadEventView::End,
            ReadEvent::Failed(detail) => ReadEventView::Failed(detail@),
        }
    }
}

/// The mathematical content of a `LineStream`: where it stands and the bytes
/// of the line that has not been terminated yet.
pub struct LineStreamView {
    pub status: StreamStatus,
    pub pending: Seq<u8>,
}

/// The content of the elements of a sequence of lines.
pub open spec fn element_views(elements: Seq<Result<String, InvokeError>>) -> Seq<
    Result<Seq<char>, InvokeErrorView>,
> {
    Seq::new(elements.len(), |i: int| outcome_view(elements[i]))
}

/// Byte lines as elements of the sequence: each one a success with its text.
pub open spec fn line_elements(lines: Seq<Seq<u8>>) -> Seq<Result<Seq<char>, InvokeErrorView>> {
    Seq::new(lines.len(), |i: int| Ok(captured_text(lines[i])))
}

/// A fresh stream: open, with nothing received.
pub open spec fn fresh() -> LineStreamView {
    LineStreamView { status: StreamStatus::Open, pending: Seq::empty() }
}

/// What one read event does to a stream: the stream afterwards and the
/// elements that the event adds to the sequence.
///
/// While the stream is open, data adds the lines that it completes, the end
/// adds the unterminated rest as a last line, and a failed read adds the
/// error as the last element and discards the rest. A stream that has ended
/// or failed adds nothing and stays as it is.
pub open spec fn step(state: LineStreamView, event: ReadEventView) -> (
    LineStreamView,
    Seq<Result<Seq<char>, InvokeErrorView>>,
) {
    if state.status != StreamStatus::Open {
        (state, Seq::empty())
    } else {
        match event {
            ReadEventView::Data(bytes) => (
                LineStreamView {
                    status: StreamStatus::Open,
                    pending: remainder(state.pending + bytes),
                },
                line_elements(complete_lines(state.pending + bytes)),
            ),
            ReadEventView::End => (
                LineStreamView { status: StreamStatus::Ended, pending: Seq::empty() },
                line_elements(trailing_line(state.pending)),
            ),
            ReadEventView::Failed(detail) => (
                LineStreamView { status: StreamStatus::Failed, pending: Seq::empty() },
                seq![Err(InvokeErrorView::Read { detail })],
            ),
        }
    }
}

/// What a series of read events does to a stream: the stream afterwards and
/// the whole sequence of elements.
pub open spec fn run(state: LineStreamView, events: Seq<ReadEventView>) -> (
    LineStreamView,
    Seq<Result<Seq<char>, InvokeErrorView>>,
)
    decreases events.len(),
{
    if events.len() == 0 {
        (state, Seq::empty())
    } else {
        let (next, elements) = step(state, events[0]);
        let (last, more) = run(next, events.drop_first());
        (last, elements + more)
    }
}

/// The bytes of `chunks` laid end to end.
pub open spec fn concat(chunks: Seq<Seq<u8>>) -> Seq<u8>
    decreases chunks.len(),
{
    if chunks.len() == 0 {
        Seq::empty()
    } else {
        chunks[0] + concat(chunks.drop_first())
    }
}

/// The events of a process that writes `chunks` and then closes its output.
pub open spec fn delivery(chunks: Seq<Seq<u8>>) -> Seq<ReadEventView> {
    Seq::new(chunks.len(), |i: int| ReadEventView::Data(chunks[i])).push(ReadEventView::End)
}

/// A stream of lines over the output of a running process.
pub struct LineStream {
    assembler: LineAssembler,
    status: StreamStatus,
}

impl View for LineStream {
    type V = LineStreamView;

    closed spec fn view(&self) -> LineStreamView {
        LineStreamView { status: self.status, pending: self.assembler@ }
    }
}

impl LineStream {
    /// A stream over output of which nothing has been read yet.
    pub fn new() -> (stream: LineStream)
        ensures
            stream@ == fresh(),
    {
        LineStream { assembler: LineAssembler::new(), status: StreamStatus::Open }
    }

    /// Where the stream stands.
    pub fn status(&self) -> (status: StreamStatus)
        ensures
            status == self@.status,
    {
        self.status
    }

    /// True once the sequence is exhausted: the output ended or a read failed.
    pub fn is_finished(&self) -> (finished: bool)
        ensures
            finished == (self@.status != StreamStatus::Open),
    {
        !(self.status == StreamStatus::Open)
    }

    /// Takes the outcome of the next read and returns the elements that it
    /// adds to the sequence, in order: text lines, or the read error as the
    /// last element.
    pub fn advance(&mut self, event: ReadEvent) -> (elements: Vec<Result<String, InvokeError>>)
        ensures
            final(self)@ == step(old(self)@, event@).0,
            element_views(elements@) == step(old(self)@, event@).1,
    {
        let mut elements: Vec<Result<String, InvokeError>> = Vec::new();
        if !(self.status == StreamStatus::Open) {
            proof {
                assert(element_views(elements@) =~= Seq::empty());
            }
            return elements;
        }
        match event {
            ReadEvent::Data(bytes) => {
                let lines = self.assembler.feed(bytes.as_slice());
                decode_lines(&lines)
            },
            ReadEvent::End => {
                let mut assembler = LineAssembler::new();
                core::mem::swap(&mut assembler, &mut self.assembler);
                self.status = StreamStatus::Ended;
                let ghost rest = assembler@;
                match assembler.finish() {
                    Some(line) => {
                        elements.push(Ok(decode(line.as_slice())));
                        proof {
                            assert(element_views(elements@) =~= line_elements(
                                trailing_line(rest),
                            ));
                        }
                    },
                    None => {
                        proof {
                            assert(element_views(elements@) =~= line_elements(
                                trailing_line(rest),
                            ));
                        }
                    },
                }
                elements
            },
            ReadEvent::Failed(detail) => {
                self.assembler = LineAssembler::new();
                self.status = StreamStatus::Failed;
                elements.push(Err(InvokeError::Read { detail }));
                proof {
                    assert(element_views(elements@) =~= seq![
                        Err(InvokeErrorView::Read { detail: detail@ }),
                    ]);
                }
                elements
            },
        }
    }
}

/// Decodes each byte line as text.
fn decode_lines(lines: &Vec<Vec<u8>>) -> (elements: Vec<Result<String, InvokeError>>)
    ensures
        element_views(elements@) == line_elements(line_views(lines@)),
{
    let mut elements: Vec<Result<String, InvokeError>> = Vec::new();
    let mut i: usize = 0;
    while i < lines.len()
        invariant
            0 <= i <= lines.len(),
            elements.len() == i,
            forall|j: int|
                0 <= j < i ==> outcome_view(#[trigger] elements@[j]) == Ok::<
                    Seq<char>,
                    InvokeErrorView,
                >(captured_text(lines@[j]@)),
        decreases lines.len() - i,
    {
        elements.push(Ok(decode(lines[i].as_slice())));
        i += 1;
    }
    proof {
        assert(element_views(elements@) =~= line_elements(line_views(lines@)));
    }
    elements
}

/// The whole content of a finished stream as text lines.
pub fn stream_lines(bytes: &[u8]) -> (elements: Vec<Result<String, InvokeError>>)
    ensures
        element_views(elements@) == line_elements(all_lines(bytes@)),
{
    let lines = crate::lines::split_lines(bytes);
    decode_lines(&lines)
}

/// Once a stream has ended or failed it is exhausted: whatever is reported to
/// it afterwards, it yields no further element and does not change.
pub proof fn lemma_finished_stream_is_exhausted(state: LineStreamView, events: Seq<ReadEventView>)
    requires
        state.status != StreamStatus::Open,
    ensures
        run(state, events) == (state, Seq::<Result<Seq<char>, InvokeErrorView>>::empty()),
    decreases events.len(),
{
    if events.len() > 0 {
        lemma_finished_stream_is_exhausted(state, events.drop_first());
        assert(run(state, events).1 =~= Seq::empty());
    }
}

/// Elements of lines laid end to end are the elements of the lines laid end
/// to end.
pub proof fn lemma_line_elements_add(a: Seq<Seq<u8>>, b: Seq<Seq<u8>>)
    ensures
        line_elements(a) + line_elements(b) == line_elements(a + b),
{
    assert(line_elements(a) + line_elements(b) =~= line_elements(a + b));
}

/// The sequence does not depend on how the output was cut into reads: from a
/// stream that holds `pending`, a process that writes `chunks` and then closes
/// its output yields the lines of all these bytes taken together, each once
/// and in order, and leaves the stream ended. (A stream never holds a line
/// feed: it hands a line out as soon as one arrives.)
pub proof fn lemma_stream_yields_all_lines(pending: Seq<u8>, chunks: Seq<Seq<u8>>)
    requires
        no_line_feed(pending),
    ensures
        run(LineStreamView { status: StreamStatus::Open, pending }, delivery(chunks)) == (
            LineStreamView { status: StreamStatus::Ended, pending: Seq::empty() },
            line_elements(all_lines(pending + concat(chunks))),
        ),
    decreases chunks.len(),
{
    let state = LineStreamView { status: StreamStatus::Open, pending };
    let events = delivery(chunks);
    if chunks.len() == 0 {
        assert(events.drop_first() =~= Seq::empty());
        assert(pending + concat(chunks) =~= pending);
        let ended = LineStreamView { status: StreamStatus::Ended, pending: Seq::empty() };
        assert(run(ended, events.drop_first()).1 =~= Seq::empty());
        lemma_unterminated(pending);
        assert(all_lines(pending) =~= trailing_line(pending));
        assert(run(state, events).1 =~= line_elements(all_lines(pending)));
    } else {
        let rest = chunks.drop_first();
        let whole = pending + chunks[0];
        assert(events.drop_first() =~= delivery(rest));
        assert(events[0] == ReadEventView::Data(chunks[0]));
        lemma_remainder_unterminated(whole);
        lemma_stream_yields_all_lines(remainder(whole), rest);
        lemma_split_resumes(whole, concat(rest));
        assert(pending + concat(chunks) =~= whole + concat(rest));
        lemma_line_elements_add(
            complete_lines(whole),
            all_lines(remainder(whole) + concat(rest)),
        );
        assert(complete_lines(whole) + all_lines(remainder(whole) + concat(rest)) =~= all_lines(
            whole + concat(rest),
        ));
    }
}

/// A process that emits `lines`, each terminated by a line feed, in reads cut
/// anywhere, yields exactly as many elements as lines, in the order of
/// emission, each the text of its line (without a carriage return before the
/// line feed), and the stream has then ended.
pub proof fn lemma_stream_yields_emitted_lines(lines: Seq<Seq<u8>>, chunks: Seq<Seq<u8>>)
    requires
        forall|i: int| 0 <= i < lines.len() ==> no_line_feed(#[trigger] lines[i]),
        concat(chunks) == join_lines(lines),
    ensures
        run(fresh(), delivery(chunks)).0.status == StreamStatus::Ended,
        run(fresh(), delivery(chunks)).1.len() == lines.len(),
        forall|i: int|
            0 <= i < lines.len() ==> #[trigger] run(fresh(), delivery(chunks)).1[i] == Ok::<
                Seq<char>,
                InvokeErrorView,
            >(captured_text(trim_cr(lines[i]))),
{
    lemma_stream_yields_all_lines(Seq::empty(), chunks);
    assert(Seq::<u8>::empty() + concat(chunks) =~= concat(chunks));
    lemma_joined_lines_split(lines);
}

} // verus!
