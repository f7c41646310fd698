//! The OpenSSH text line of a public key:
//!
//! ```text
//! <algorithm id> <Base64 of the key blob> <comment>
//! ```
//!
//! The fields are separated by single spaces; the comment is optional and is
//! all that follows the second space. Whitespace at the end of the line is
//! not part of it.

use crate::base64::{base64_encode, base64_reads_back, base64_text, is_base64_char};
use crate::error::Error;
use crate::key::KeyData;
use crate::text::{is_whitespace, str_from_utf8, trim_end, trimmed_end};
use vstd::prelude::*;
use vstd::slice::slice_subrange;
use vstd::string::*;
use vstd::utf8::*;

verus! {

/// The byte that separates the fields of a line.
pub const SPACE: u8 = 0x20;

/// The fields of a line, as a mathematical value.
pub struct LineModel {
    /// The algorithm identifier.
    pub algorithm_id: Seq<u8>,
    /// The Base64 text of the key blob, not decoded.
    pub base64_data: Seq<u8>,
    /// The comment; empty where the line has none.
    pub comment: Seq<u8>,
}

/// The first position at or after `start` at which `line` holds a space, or
/// the length of `line` where it holds none there.
pub open spec fn field_end(line: Seq<u8>, start: int) -> int
    decreases line.len() - start,
{
    if start < 0 || start >= line.len() {
        line.len() as int
    } else if line[start] == SPACE {
        start
    } else {
        field_end(line, start + 1)
    }
}

/// Splits a line that has no whitespace at its end into its fields, or gives
/// `None` where the algorithm identifier or the Base64 text is missing.
pub open spec fn split_line(line: Seq<u8>) -> Option<LineModel> {
    let a = field_end(line, 0);
    let b = field_end(line, a + 1);
    if a == 0 || a >= line.len() || b == a + 1 {
        None
    } else {
        Some(
            LineModel {
                algorithm_id: line.subrange(0, a),
                base64_data: line.subrange(a + 1, b),
                comment: if b < line.len() {
                    line.subrange(b + 1, line.len() as int)
                } else {
                    Seq::empty()
                },
            },
        )
    }
}

/// The fields of the line `text`, whose trailing whitespace is ignored.
pub open spec fn decode_line(text: Seq<char>) -> Option<LineModel> {
    split_line(encode_utf8(trimmed_end(text)))
}

/// The line with these fields: the comment and the space before it are left
/// out where the comment is empty.
pub open spec fn line_text(algorithm_id: Seq<char>, base64: Seq<char>, comment: Seq<char>) -> Seq<
    char,
> {
    algorithm_id + seq![' '] + base64 + if comment.len() > 0 {
        seq![' '] + comment
    } else {
        Seq::empty()
    }
}

/// Whether `bytes` holds no space.
pub open spec fn has_no_space(bytes: Seq<u8>) -> bool {
    forall|i: int| 0 <= i < bytes.len() ==> #[trigger] bytes[i] != SPACE
}

/// The UTF-8 bytes of two texts joined are the bytes of the one, then of the other.
pub proof fn lemma_encode_utf8_concat(a: Seq<char>, b: Seq<char>)
    ensures
        encode_utf8(a + b) == encode_utf8(a) + encode_utf8(b),
    decreases a.len(),
{
    if a.len() == 0 {
        assert(a + b =~= b);
        assert(encode_utf8(a) + encode_utf8(b) =~= encode_utf8(b));
    } else {
        lemma_encode_utf8_concat(a.drop_first(), b);
        assert((a + b).drop_first() =~= a.drop_first() + b);
        assert((a + b)[0] == a[0]);
        assert(encode_utf8(a + b) =~= encode_utf8(a) + encode_utf8(b));
    }
}

/// A stretch of `line` without a space, followed by a space or by the end of
/// `line`, ends where `field_end` says.
pub proof fn lemma_field_end(line: Seq<u8>, start: int, end: int)
    requires
        0 <= start <= end <= line.len(),
        forall|i: int| start <= i < end ==> #[trigger] line[i] != SPACE,
        end == line.len() || line[end] == SPACE,
    ensures
        field_end(line, start) == end,
    decreases end - start,
{
    if start < end {
        lemma_field_end(line, start + 1, end);
    }
}

/// Text from the Base64 alphabet is encoded one byte for each character, none
/// of them a space.
pub proof fn lemma_base64_bytes(text: Seq<char>)
    requires
        forall|i: int| 0 <= i < text.len() ==> is_base64_char(#[trigger] text[i]),
    ensures
        encode_utf8(text).len() == text.len(),
        has_no_space(encode_utf8(text)),
        text.len() > 0 ==> !is_whitespace(text.last()),
{
    assert(is_ascii_chars(text)) by {
        assert forall|i: int| 0 <= i < text.len() implies '\0' <= #[trigger] text[i]
            <= '\u{7f}' by {
            assert(is_base64_char(text[i]));
        }
    }
    is_ascii_chars_encode_utf8(text);
    assert forall|i: int| 0 <= i < encode_utf8(text).len() implies #[trigger] encode_utf8(text)[i]
        != SPACE by {
        assert(is_base64_char(text[i]));
        assert(encode_utf8(text)[i] == text[i] as u8);
    }
    if text.len() > 0 {
        assert(is_base64_char(text[text.len() - 1]));
    }
}

/// A line that was written is split into the fields it was written from:
/// where the identifier and the Base64 text are not empty and hold no space,
/// and the comment does not end in whitespace.
pub proof fn lemma_line_round_trip(algorithm_id: Seq<char>, base64: Seq<char>, comment: Seq<char>)
    requires
        algorithm_id.len() > 0,
        has_no_space(encode_utf8(algorithm_id)),
        base64.len() > 0,
        forall|i: int| 0 <= i < base64.len() ==> is_base64_char(#[trigger] base64[i]),
        comment.len() > 0 ==> !is_whitespace(comment.last()),
    ensures
        decode_line(line_text(algorithm_id, base64, comment)) == Some(
            LineModel {
                algorithm_id: encode_utf8(algorithm_id),
                base64_data: encode_utf8(base64),
                comment: encode_utf8(comment),
            },
        ),
{
    let text = line_text(algorithm_id, base64, comment);
    let space = seq![' '];
    let tail = if comment.len() > 0 {
        space + comment
    } else {
        Seq::<char>::empty()
    };
    lemma_base64_bytes(base64);
    assert(text.len() > 0 && !is_whitespace(text.last())) by {
        if comment.len() > 0 {
            assert(text.last() == comment.last());
        } else {
            assert(text.last() == base64.last());
        }
    }
    assert(trimmed_end(text) == text);
    let id_bytes = encode_utf8(algorithm_id);
    let b64_bytes = encode_utf8(base64);
    let c_bytes = encode_utf8(comment);
    let sp = seq![SPACE];
    assert(encode_utf8(space) == sp) by {
        assert(is_ascii_chars(space));
        is_ascii_chars_encode_utf8(space);
        assert(encode_utf8(space) =~= sp);
    }
    assert(id_bytes.len() > 0) by {
        assert(algorithm_id =~= seq![algorithm_id[0]] + algorithm_id.drop_first());
        lemma_encode_utf8_concat(seq![algorithm_id[0]], algorithm_id.drop_first());
        assert(encode_utf8(seq![algorithm_id[0]]).len() > 0) by {
            assert(seq![algorithm_id[0]].drop_first() =~= Seq::<char>::empty());
        }
    }
    let tail_bytes = if comment.len() > 0 {
        sp + c_bytes
    } else {
        Seq::<u8>::empty()
    };
    assert(encode_utf8(tail) == tail_bytes) by {
        if comment.len() > 0 {
            lemma_encode_utf8_concat(space, comment);
        }
    }
    let line = encode_utf8(text);
    assert(line == id_bytes + sp + b64_bytes + tail_bytes) by {
        lemma_encode_utf8_concat(algorithm_id + space + base64, tail);
        lemma_encode_utf8_concat(algorithm_id + space, base64);
        lemma_encode_utf8_concat(algorithm_id, space);
    }
    let a = id_bytes.len() as int;
    let b = a + 1 + b64_bytes.len();
    assert(comment.len() > 0 ==> c_bytes.len() > 0) by {
        if comment.len() > 0 {
            assert(comment =~= seq![comment[0]] + comment.drop_first());
            lemma_encode_utf8_concat(seq![comment[0]], comment.drop_first());
            assert(encode_utf8(seq![comment[0]]).len() > 0) by {
                assert(seq![comment[0]].drop_first() =~= Seq::<char>::empty());
            }
        }
    }
    assert(field_end(line, 0) == a) by {
        assert forall|i: int| 0 <= i < a implies #[trigger] line[i] != SPACE by {
            assert(line[i] == id_bytes[i]);
        }
        assert(line[a] == SPACE);
        lemma_field_end(line, 0, a);
    }
    assert(field_end(line, a + 1) == b) by {
        assert forall|i: int| a + 1 <= i < b implies #[trigger] line[i] != SPACE by {
            assert(line[i] == b64_bytes[i - a - 1]);
        }
        if comment.len() > 0 {
            assert(line[b] == SPACE);
        }
        lemma_field_end(line, a + 1, b);
    }
    assert(line.subrange(0, a) =~= id_bytes);
    assert(line.subrange(a + 1, b) =~= b64_bytes);
    if comment.len() > 0 {
        assert(line.subrange(b + 1, line.len() as int) =~= c_bytes);
    } else {
        assert(c_bytes =~= Seq::<u8>::empty());
    }
}

/// The position of the first space of `line` at or after `start`.
fn find_space(line: &[u8], start: usize) -> (r: usize)
    requires
        start <= line@.len(),
    ensures
        r == field_end(line@, start as int),
        start <= r <= line@.len(),
{
    let mut i: usize = start;
    while i < line.len() && line[i] != SPACE
        invariant
            start <= i <= line@.len(),
            field_end(line@, start as int) == field_end(line@, i as int),
        decreases line@.len() - i,
    {
        i += 1;
    }
    i
}

/// The fields of a line, each where it stands in the line.
#[derive(Clone, Copy, Debug)]
pub struct SshFormat<'a> {
    /// The algorithm identifier.
    pub algorithm_id: &'a [u8],
    /// The Base64 text of the key blob, not decoded.
    pub base64_data: &'a [u8],
    /// The comment; empty where the line has none.
    pub comment: &'a [u8],
}

impl<'a> View for SshFormat<'a> {
    type V = LineModel;

    open spec fn view(&self) -> LineModel {
        LineModel {
            algorithm_id: self.algorithm_id@,
            base64_data: self.base64_data@,
            comment: self.comment@,
        }
    }
}

impl<'a> SshFormat<'a> {
    /// Splits `line` into its fields, ignoring whitespace at its end. The
    /// Base64 text is handed out as it stands.
    pub fn decode(line: &'a str) -> (r: Result<SshFormat<'a>, Error>)
        ensures
            match decode_line(line@) {
                Some(fields) => r matches Ok(f) && f@ == fields,
                None => r matches Err(e) && e == Error::FormatEncoding,
            },
    {
        let bytes = trim_end(line).as_bytes();
        let n = bytes.len();
        let a = find_space(bytes, 0);
        if a == 0 || a >= n {
            return Err(Error::FormatEncoding);
        }
        let b = find_space(bytes, a + 1);
        if b == a + 1 {
            return Err(Error::FormatEncoding);
        }
        let comment = if b < n {
            slice_subrange(bytes, b + 1, n)
        } else {
            slice_subrange(bytes, n, n)
        };
        assert(b >= n ==> comment@ =~= Seq::<u8>::empty());
        Ok(
            SshFormat {
                algorithm_id: slice_subrange(bytes, 0, a),
                base64_data: slice_subrange(bytes, a + 1, b),
                comment,
            },
        )
    }

    /// Joins the fields of a line, `base64` being the Base64 text of the key
    /// blob.
    pub fn join(algorithm_id: &str, base64: &str, comment: &str) -> (r: String)
        ensures
            r@ == line_text(algorithm_id@, base64@, comment@),
    {
        proof {
            reveal_strlit(" ");
            assert(" "@ =~= seq![' ']);
        }
        let mut line = String::from_str(algorithm_id);
        line.append(" ");
        line.append(base64);
        if !comment.is_empty() {
            line.append(" ");
            line.append(comment);
            assert(line@ =~= line_text(algorithm_id@, base64@, comment@));
        } else {
            assert(line@ =~= line_text(algorithm_id@, base64@, comment@));
        }
        line
    }

    /// The line for `key` with this identifier and comment, unless the blob
    /// of the key is too long for its Base64 text to be made.
    pub fn encode_string(algorithm_id: &str, key: &KeyData, comment: &str) -> (r: Result<
        String,
        Error,
    >)
        ensures
            key@.wf(),
            r is Ok <==> key@.encoding().len() <= usize::MAX / 4,
            r matches Ok(line) ==> line@ == line_text(
                algorithm_id@,
                base64_text(key@.encoding()),
                comment@,
            ),
            r is Ok ==> base64_reads_back(key@.encoding()),
            r matches Err(e) ==> e == Error::Length,
    {
        let mut blob: Vec<u8> = Vec::new();
        key.encode(&mut blob);
        assert(blob@ =~= key@.encoding());
        if blob.len() > usize::MAX / 4 {
            return Err(Error::Length);
        }
        let base64 = base64_encode(blob.as_slice());
        proof {
            vstd::seq::axiom_seq_add_len(
                crate::wire::string(key@.algorithm),
                crate::wire::strings(key@.fields),
            );
            assert(crate::wire::string(key@.algorithm).len() >= 4);
            assert(blob@.len() >= 4);
        }
        Ok(Self::join(algorithm_id, base64.as_str(), comment))
    }

    /// Writes the line for `key` with this identifier and comment to the
    /// front of `out`, and returns it as it stands there. What follows it in
    /// `out` is left as it was.
    pub fn encode<'o>(algorithm_id: &str, key: &KeyData, comment: &str, out: &'o mut [u8]) -> (r:
        Result<&'o str, Error>)
        ensures
            final(out)@.len() == old(out)@.len(),
            r is Ok <==> key@.encoding().len() <= usize::MAX / 4 && encode_utf8(
                line_text(algorithm_id@, base64_text(key@.encoding()), comment@),
            ).len() <= old(out)@.len(),
            r matches Ok(line) ==> line@ == line_text(
                algorithm_id@,
                base64_text(key@.encoding()),
                comment@,
            ) && final(out)@ == encode_utf8(line@) + old(out)@.skip(
                encode_utf8(line@).len() as int,
            ),
            r matches Err(e) ==> e == Error::Length && final(out)@ == old(out)@,
    {
        let line = Self::encode_string(algorithm_id, key, comment)?;
        let bytes = line.as_str().as_bytes();
        let n = bytes.len();
        if n > out.len() {
            return Err(Error::Length);
        }
        let mut i: usize = 0;
        while i < n
            invariant
                n == bytes@.len(),
                i <= n <= out@.len(),
                out@.len() == old(out)@.len(),
                out@ == bytes@.take(i as int) + old(out)@.skip(i as int),
            decreases n - i,
        {
            out[i] = bytes[i];
            assert(out@ =~= bytes@.take(i + 1) + old(out)@.skip(i + 1));
            i += 1;
        }
        assert(bytes@.take(n as int) =~= bytes@);
        let written: &'o [u8] = out;
        let head = slice_subrange(written, 0, n);
        proof {
            assert(head@ =~= bytes@);
            encode_utf8_valid_utf8(line@);
            encode_utf8_decode_utf8(line@);
        }
        match str_from_utf8(head) {
            Some(text) => Ok(text),
            None => Err(Error::Length),
        }
    }
}

} // verus!
