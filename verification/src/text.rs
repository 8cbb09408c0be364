//! Lossy decoding of captured bytes into text.
//!
//! Output of a child process is untrusted, so turning it into text never
//! fails: bytes that are not well-formed UTF-8 are replaced, not rejected.

use vstd::prelude::*;
use vstd::utf8::*;

verus! {

/// The text that lossy UTF-8 decoding gives for `bytes`: every well-formed
/// sequence decoded, every ill-formed one replaced by U+FFFD.
pub uninterp spec fn lossy_text(bytes: Seq<u8>) -> Seq<char>;

/// The text that captured bytes are presented as: their plain decoding where
/// they are well-formed UTF-8, their lossy decoding otherwise.
pub open spec fn captured_text(bytes: Seq<u8>) -> Seq<char> {
    if valid_utf8(bytes) {
        decode_utf8(bytes)
    } else {
        lossy_text(bytes)
    }
}

/// The texts of a sequence of byte lines, line by line.
pub open spec fn captured_texts(lines: Seq<Seq<u8>>) -> Seq<Seq<char>> {
    Seq::new(lines.len(), |i: int| captured_text(lines[i]))
}

/// Calls `String::from_utf8_lossy` and takes ownership of what it returns.
///
/// Trusted: the result is `lossy_text` of the input, and for input that is
/// well-formed UTF-8 it is the plain decoding, since the standard library
/// hands valid input back unchanged and replaces only invalid sequences.
#[verifier::external_body]
fn from_utf8_lossy(bytes: &[u8]) -> (text: String)
    ensures
        text@ == lossy_text(bytes@),
        valid_utf8(bytes@) ==> text@ == decode_utf8(bytes@),
{
    String::from_utf8_lossy(bytes).into_owned()
}

/// Presents captured bytes as text. This cannot fail, whatever the bytes.
pub fn decode(bytes: &[u8]) -> (text: String)
    ensures
        text@ == captured_text(bytes@),
{
    from_utf8_lossy(bytes)
}

/// Text that was encoded as UTF-8 is presented as exactly that text.
pub proof fn lemma_encoded_text_round_trips(text: Seq<char>)
    ensures
        captured_text(encode_utf8(text)) == text,
{
    encode_utf8_valid_utf8(text);
    encode_utf8_decode_utf8(text);
}

} // verus!
