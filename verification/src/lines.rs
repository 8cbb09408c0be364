//! Splitting a byte stream into lines.
//!
//! A line ends at a line feed. The line feed is not part of the line, and
//! neither is a carriage return that stands directly before it. Bytes after
//! the last line feed form a final line of their own when there are any.

use vstd::prelude::*;

verus! {

/// The line feed byte, which terminates a line.
pub const LF: u8 = 10;

/// The carriage return byte, dropped when it directly precedes a line feed.
pub const CR: u8 = 13;

/// True when no byte of `bytes` is a line feed.
pub open spec fn no_line_feed(bytes: Seq<u8>) -> bool {
    forall|k: int| 0 <= k < bytes.len() ==> bytes[k] != LF
}

/// The index of the first line feed in `bytes`, or `bytes.len()` when there is
/// none.
pub open spec fn line_end(bytes: Seq<u8>) -> int
    decreases bytes.len(),
{
    if bytes.len() == 0 || bytes[0] == LF {
        0
    } else {
        1 + line_end(bytes.drop_first())
    }
}

/// A line's content without the carriage return that preceded its line feed.
pub open spec fn trim_cr(line: Seq<u8>) -> Seq<u8> {
    if line.len() > 0 && line.last() == CR {
        line.drop_last()
    } else {
        line
    }
}

/// The lines of `bytes` that are terminated by a line feed, in order.
pub open spec fn complete_lines(bytes: Seq<u8>) -> Seq<Seq<u8>>
    decreases bytes.len(),
{
    let n = line_end(bytes);
    if 0 <= n < bytes.len() {
        seq![trim_cr(bytes.subrange(0, n))] + complete_lines(
            bytes.subrange(n + 1, bytes.len() as int),
        )
    } else {
        seq![]
    }
}

/// The bytes of `bytes` that follow its last line feed: the beginning of a line
/// that has not been terminated yet.
pub open spec fn remainder(bytes: Seq<u8>) -> Seq<u8>
    decreases bytes.len(),
{
    let n = line_end(bytes);
    if 0 <= n < bytes.len() {
        remainder(bytes.subrange(n + 1, bytes.len() as int))
    } else {
        bytes
    }
}

/// What is left over when a stream ends: the unterminated bytes as one last
/// line, kept exactly as they are, or nothing when there are none.
pub open spec fn trailing_line(rest: Seq<u8>) -> Seq<Seq<u8>> {
    if rest.len() > 0 {
        seq![rest]
    } else {
        seq![]
    }
}

/// All lines of a finished stream whose whole content is `bytes`.
pub open spec fn all_lines(bytes: Seq<u8>) -> Seq<Seq<u8>> {
    complete_lines(bytes) + trailing_line(remainder(bytes))
}

/// `lines`, each followed by a line feed, laid end to end.
pub open spec fn join_lines(lines: Seq<Seq<u8>>) -> Seq<u8>
    decreases lines.len(),
{
    if lines.len() == 0 {
        seq![]
    } else {
        lines[0] + seq![LF] + join_lines(lines.drop_first())
    }
}

/// The contents of a vector of byte lines.
pub open spec fn line_views(lines: Seq<Vec<u8>>) -> Seq<Seq<u8>> {
    Seq::new(lines.len(), |i: int| lines[i]@)
}

/// `line_end` lies within the sequence, no byte before it is a line feed, and
/// the byte at it is one unless it is the end.
pub proof fn lemma_line_end_bounds(bytes: Seq<u8>)
    ensures
        0 <= line_end(bytes) <= bytes.len(),
        no_line_feed(bytes.subrange(0, line_end(bytes))),
        line_end(bytes) < bytes.len() ==> bytes[line_end(bytes)] == LF,
        no_line_feed(bytes) <==> line_end(bytes) == bytes.len(),
    decreases bytes.len(),
{
    if bytes.len() == 0 || bytes[0] == LF {
    } else {
        let rest = bytes.drop_first();
        lemma_line_end_bounds(rest);
        let n = line_end(bytes);
        assert forall|k: int| 0 <= k < n implies bytes.subrange(0, n)[k] != LF by {
            if k > 0 {
                assert(rest.subrange(0, n - 1)[k - 1] == bytes[k]);
            }
        }
        if no_line_feed(bytes) {
            assert forall|k: int| 0 <= k < rest.len() implies rest[k] != LF by {
                assert(rest[k] == bytes[k + 1]);
            }
        }
        if line_end(rest) == rest.len() {
            assert forall|k: int| 0 <= k < bytes.len() implies bytes[k] != LF by {
                if k > 0 {
                    assert(bytes[k] == rest[k - 1]);
                }
            }
        }
    }
}

/// The first line feed is where the first line feed is: a position `n` with no
/// line feed before it, and one at it unless it is the end, is `line_end`.
pub proof fn lemma_line_end_is(bytes: Seq<u8>, n: int)
    requires
        0 <= n <= bytes.len(),
        forall|k: int| 0 <= k < n ==> bytes[k] != LF,
        n < bytes.len() ==> bytes[n] == LF,
    ensures
        line_end(bytes) == n,
    decreases bytes.len(),
{
    if bytes.len() == 0 || n == 0 {
    } else {
        let rest = bytes.drop_first();
        assert(bytes[0] != LF);
        assert forall|k: int| 0 <= k < n - 1 implies rest[k] != LF by {
            assert(rest[k] == bytes[k + 1]);
        }
        lemma_line_end_is(rest, n - 1);
    }
}

/// Bytes without a line feed hold no complete line and are their own
/// remainder.
pub proof fn lemma_unterminated(bytes: Seq<u8>)
    requires
        no_line_feed(bytes),
    ensures
        complete_lines(bytes) == Seq::<Seq<u8>>::empty(),
        remainder(bytes) == bytes,
{
    lemma_line_end_bounds(bytes);
}

/// The remainder never holds a line feed.
pub proof fn lemma_remainder_unterminated(bytes: Seq<u8>)
    ensures
        no_line_feed(remainder(bytes)),
    decreases bytes.len(),
{
    lemma_line_end_bounds(bytes);
    let n = line_end(bytes);
    if 0 <= n < bytes.len() {
        lemma_remainder_unterminated(bytes.subrange(n + 1, bytes.len() as int));
    }
}

/// Where `head` has no line feed, `head`, a line feed and `tail` split into
/// the line `head` (trimmed) followed by the lines of `tail`.
pub proof fn lemma_first_line(head: Seq<u8>, tail: Seq<u8>)
    requires
        no_line_feed(head),
    ensures
        complete_lines(head + seq![LF] + tail) == seq![trim_cr(head)] + complete_lines(tail),
        remainder(head + seq![LF] + tail) == remainder(tail),
{
    let bytes = head + seq![LF] + tail;
    lemma_line_end_is(bytes, head.len() as int);
    assert(bytes.subrange(0, head.len() as int) =~= head);
    assert(bytes.subrange(head.len() as int + 1, bytes.len() as int) =~= tail);
}

/// Splitting does not depend on where the stream was cut: the lines of `a`
/// followed by `b` are the lines of `a`, then those of what `a` left
/// unterminated followed by `b`.
pub proof fn lemma_split_resumes(a: Seq<u8>, b: Seq<u8>)
    ensures
        complete_lines(a + b) == complete_lines(a) + complete_lines(remainder(a) + b),
        remainder(a + b) == remainder(remainder(a) + b),
    decreases a.len(),
{
    lemma_line_end_bounds(a);
    let n = line_end(a);
    if 0 <= n < a.len() {
        let head = a.subrange(0, n);
        let tail = a.subrange(n + 1, a.len() as int);
        assert(a =~= head + seq![LF] + tail);
        assert(a + b =~= head + seq![LF] + (tail + b));
        lemma_first_line(head, tail);
        lemma_first_line(head, tail + b);
        lemma_split_resumes(tail, b);
        assert(complete_lines(a + b) =~= complete_lines(a) + complete_lines(remainder(a) + b));
    } else {
        lemma_unterminated(a);
        assert(complete_lines(a + b) =~= complete_lines(a) + complete_lines(remainder(a) + b));
    }
}

/// A stream that emits `lines`, each terminated by a line feed, splits into
/// exactly as many lines, in the order of emission, each as emitted but for a
/// carriage return at its end, and nothing is left over.
pub proof fn lemma_joined_lines_split(lines: Seq<Seq<u8>>)
    requires
        forall|i: int| 0 <= i < lines.len() ==> no_line_feed(#[trigger] lines[i]),
    ensures
        all_lines(join_lines(lines)).len() == lines.len(),
        forall|i: int|
            0 <= i < lines.len() ==> #[trigger] all_lines(join_lines(lines))[i] == trim_cr(
                lines[i],
            ),
        remainder(join_lines(lines)).len() == 0,
    decreases lines.len(),
{
    if lines.len() == 0 {
        lemma_unterminated(join_lines(lines));
    } else {
        let rest = lines.drop_first();
        assert forall|i: int| 0 <= i < rest.len() implies no_line_feed(#[trigger] rest[i]) by {
            assert(rest[i] == lines[i + 1]);
        }
        lemma_joined_lines_split(rest);
        lemma_first_line(lines[0], join_lines(rest));
        let whole = all_lines(join_lines(lines));
        assert(whole =~= seq![trim_cr(lines[0])] + all_lines(join_lines(rest)));
        assert forall|i: int| 0 <= i < lines.len() implies #[trigger] whole[i] == trim_cr(
            lines[i],
        ) by {
            if i > 0 {
                assert(whole[i] == all_lines(join_lines(rest))[i - 1]);
                assert(rest[i - 1] == lines[i]);
            }
        }
    }
}

/// Collects the bytes of a stream that arrives in pieces and hands out each
/// line as soon as its line feed has arrived, holding only the unterminated
/// rest in memory.
pub struct LineAssembler {
    pending: Vec<u8>,
}

impl View for LineAssembler {
    type V = Seq<u8>;

    /// The bytes received since the last line feed.
    closed spec fn view(&self) -> Seq<u8> {
        self.pending@
    }
}

impl LineAssembler {
    #[verifier::type_invariant]
    spec fn unterminated(&self) -> bool {
        no_line_feed(self.pending@)
    }

    /// An assembler that has received nothing.
    pub fn new() -> (assembler: LineAssembler)
        ensures
            assembler@ == Seq::<u8>::empty(),
    {
        LineAssembler { pending: Vec::new() }
    }

    /// Takes the next piece of the stream and returns the lines that it
    /// completes, in order; what follows the last line feed is kept for later.
    pub fn feed(&mut self, chunk: &[u8]) -> (lines: Vec<Vec<u8>>)
        ensures
            line_views(lines@) == complete_lines(old(self)@ + chunk@),
            final(self)@ == remainder(old(self)@ + chunk@),
    {
        let mut lines: Vec<Vec<u8>> = Vec::new();
        let mut pending: Vec<u8> = Vec::new();
        let mut i: usize = 0;
        proof {
            use_type_invariant(&*self);
        }
        core::mem::swap(&mut pending, &mut self.pending);
        proof {
            assert(chunk@.subrange(0, chunk@.len() as int) =~= chunk@);
            assert(line_views(lines@) =~= Seq::<Seq<u8>>::empty());
        }
        let ghost start = pending@;
        while i < chunk.len()
            invariant
                0 <= i <= chunk.len(),
                no_line_feed(pending@),
                complete_lines(start + chunk@) == line_views(lines@) + complete_lines(
                    pending@ + chunk@.subrange(i as int, chunk@.len() as int),
                ),
                remainder(start + chunk@) == remainder(
                    pending@ + chunk@.subrange(i as int, chunk@.len() as int),
                ),
            decreases chunk.len() - i,
        {
            let byte = chunk[i];
            let ghost held = pending@;
            let ghost ahead = chunk@.subrange(i as int, chunk@.len() as int);
            let ghost after = chunk@.subrange(i + 1, chunk@.len() as int);
            let ghost done = line_views(lines@);
            proof {
                assert(ahead =~= seq![byte] + after);
            }
            if byte == LF {
                let mut line: Vec<u8> = Vec::new();
                core::mem::swap(&mut line, &mut pending);
                let n = line.len();
                if n > 0 && line[n - 1] == CR {
                    line.pop();
                }
                proof {
                    assert(line@ =~= trim_cr(held));
                    lemma_first_line(held, after);
                    assert(held + ahead =~= held + seq![LF] + after);
                    assert(pending@ + after =~= after);
                }
                lines.push(line);
                proof {
                    assert(line_views(lines@) =~= done + seq![trim_cr(held)]);
                    assert(done + (seq![trim_cr(held)] + complete_lines(after)) =~= (done
                        + seq![trim_cr(held)]) + complete_lines(after));
                }
            } else {
                pending.push(byte);
                proof {
                    assert(pending@ + after =~= held + ahead);
                }
            }
            i += 1;
        }
        proof {
            assert(pending@ + chunk@.subrange(i as int, chunk@.len() as int) =~= pending@);
            lemma_unterminated(pending@);
            assert(line_views(lines@) + Seq::<Seq<u8>>::empty() =~= line_views(lines@));
        }
        self.pending = pending;
        lines
    }

    /// Ends the stream: returns the unterminated bytes as a last line, or
    /// `None` when the stream ended with a line feed or was empty.
    pub fn finish(self) -> (last: Option<Vec<u8>>)
        ensures
            self@.len() == 0 <==> last is None,
            last matches Some(line) ==> line@ == self@,
    {
        if self.pending.len() == 0 {
            None
        } else {
            Some(self.pending)
        }
    }
}

/// Splits the whole content of a finished stream into its lines.
pub fn split_lines(bytes: &[u8]) -> (lines: Vec<Vec<u8>>)
    ensures
        line_views(lines@) == all_lines(bytes@),
{
    let mut assembler = LineAssembler::new();
    let mut lines = assembler.feed(bytes);
    let ghost complete = line_views(lines@);
    let ghost rest = assembler@;
    proof {
        assert(Seq::<u8>::empty() + bytes@ =~= bytes@);
    }
    match assembler.finish() {
        Some(line) => {
            lines.push(line);
            proof {
                assert(line_views(lines@) =~= complete + seq![rest]);
            }
        },
        None => {
            proof {
                assert(complete + Seq::<Seq<u8>>::empty() =~= complete);
            }
        },
    }
    lines
}

} // verus!
