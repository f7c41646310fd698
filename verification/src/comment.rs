//! The comment of a key: a label, most often an e-mail address, kept as the
//! bytes it came in.

use crate::error::Error;
use crate::text::{bytes_eq, lossy_text, string_from_utf8_lossy};
use crate::wire::{parse_string, read_string, string, write_string, MAX_FIELD_LEN};
use vstd::prelude::*;
use vstd::slice::slice_to_vec;
use vstd::utf8::{decode_utf8, encode_utf8, valid_utf8};

verus! {

/// A comment: any bytes, text or not.
#[derive(Debug, Eq, PartialOrd, Ord, Hash)]
pub struct Comment {
    bytes: Vec<u8>,
}

impl View for Comment {
    type V = Seq<u8>;

    closed spec fn view(&self) -> Seq<u8> {
        self.bytes@
    }
}

impl Comment {
    /// The comment that holds `bytes`.
    pub fn new(bytes: Vec<u8>) -> (r: Comment)
        ensures
            r@ == bytes@,
    {
        Comment { bytes }
    }

    /// The comment that holds `text` as UTF-8.
    pub fn from_text(text: &str) -> (r: Comment)
        ensures
            r@ == encode_utf8(text@),
    {
        Comment { bytes: slice_to_vec(text.as_bytes()) }
    }

    /// The bytes of the comment.
    pub fn as_bytes(&self) -> (r: &[u8])
        ensures
            r@ == self@,
    {
        self.bytes.as_slice()
    }

    /// The comment as text for display. Bytes that are not UTF-8 are replaced
    /// by U+FFFD, so the text of such a comment does not give its bytes back.
    pub fn as_str_lossy(&self) -> (r: String)
        ensures
            r@ == lossy_text(self@),
            valid_utf8(self@) ==> r@ == decode_utf8(self@),
    {
        string_from_utf8_lossy(self.bytes.as_slice())
    }

    /// The number of bytes in the comment.
    pub fn len(&self) -> (r: usize)
        ensures
            r == self@.len(),
    {
        self.bytes.len()
    }

    /// Whether the comment holds no bytes.
    pub fn is_empty(&self) -> (r: bool)
        ensures
            r == (self@.len() == 0),
    {
        self.bytes.len() == 0
    }

    /// Reads a comment from the front of `bytes`, where it stands as a
    /// `string`: the comment and the number of bytes it occupies. The bytes
    /// of the comment are taken as they are.
    pub fn decode(bytes: &[u8]) -> (r: Result<(Comment, usize), Error>)
        ensures
            match parse_string(bytes@) {
                Some((data, used)) => r matches Ok((c, n)) && c@ == data && n == used,
                None => r matches Err(e) && e == Error::FormatEncoding,
            },
    {
        match read_string(bytes) {
            Some((data, used)) => Ok((Comment { bytes: data }, used)),
            None => Err(Error::FormatEncoding),
        }
    }

    /// Reads over a comment at the front of `bytes` without keeping it, and
    /// returns the number of bytes it occupies.
    pub fn skip(bytes: &[u8]) -> (r: Result<usize, Error>)
        ensures
            match parse_string(bytes@) {
                Some((data, used)) => r matches Ok(n) && n == used,
                None => r matches Err(e) && e == Error::FormatEncoding,
            },
    {
        match read_string(bytes) {
            Some((_, used)) => Ok(used),
            None => Err(Error::FormatEncoding),
        }
    }

    /// Appends the comment to `out` as a `string`, unless it is longer than
    /// a length prefix may announce.
    pub fn encode(&self, out: &mut Vec<u8>) -> (r: Result<(), Error>)
        ensures
            self@.len() <= MAX_FIELD_LEN ==> r is Ok && final(out)@ == old(out)@ + string(self@),
            self@.len() > MAX_FIELD_LEN ==> r == Err::<(), Error>(Error::Length) && final(out)@
                == old(out)@,
    {
        if self.bytes.len() > MAX_FIELD_LEN {
            return Err(Error::Length);
        }
        write_string(out, self.bytes.as_slice());
        Ok(())
    }
}

/// `From::from` of a type for itself, which the standard library has for
/// every type; a comment is converted to a comment through it.
///
/// Trusted: it hands back the value it was given.
pub assume_specification<T>[ <T as core::convert::From<T>>::from ](value: T) -> (r: T)
    ensures
        r == value,
;

impl From<Vec<u8>> for Comment {
    fn from(bytes: Vec<u8>) -> (r: Comment)
        ensures
            r@ == bytes@,
    {
        Comment { bytes }
    }
}

impl vstd::std_specs::convert::FromSpecImpl<Vec<u8>> for Comment {
    open spec fn obeys_from_spec() -> bool {
        false
    }

    open spec fn from_spec(bytes: Vec<u8>) -> Comment {
        arbitrary()
    }
}

impl From<&[u8]> for Comment {
    fn from(bytes: &[u8]) -> (r: Comment)
        ensures
            r@ == bytes@,
    {
        Comment { bytes: slice_to_vec(bytes) }
    }
}

impl vstd::std_specs::convert::FromSpecImpl<&[u8]> for Comment {
    open spec fn obeys_from_spec() -> bool {
        false
    }

    open spec fn from_spec(bytes: &[u8]) -> Comment {
        arbitrary()
    }
}

impl From<&str> for Comment {
    fn from(text: &str) -> (r: Comment)
        ensures
            r@ == encode_utf8(text@),
    {
        Comment { bytes: slice_to_vec(text.as_bytes()) }
    }
}

impl vstd::std_specs::convert::FromSpecImpl<&str> for Comment {
    open spec fn obeys_from_spec() -> bool {
        false
    }

    open spec fn from_spec(text: &str) -> Comment {
        arbitrary()
    }
}

impl From<String> for Comment {
    fn from(text: String) -> (r: Comment)
        ensures
            r@ == encode_utf8(text@),
    {
        Comment { bytes: slice_to_vec(text.as_str().as_bytes()) }
    }
}

impl vstd::std_specs::convert::FromSpecImpl<String> for Comment {
    open spec fn obeys_from_spec() -> bool {
        false
    }

    open spec fn from_spec(text: String) -> Comment {
        arbitrary()
    }
}

impl Default for Comment {
    fn default() -> (r: Comment)
        ensures
            r@ == Seq::<u8>::empty(),
    {
        Comment { bytes: Vec::new() }
    }
}

impl Clone for Comment {
    fn clone(&self) -> (r: Comment)
        ensures
            r@ == self@,
    {
        Comment { bytes: slice_to_vec(self.bytes.as_slice()) }
    }
}

impl PartialEq for Comment {
    fn eq(&self, other: &Comment) -> (r: bool) {
        bytes_eq(self.bytes.as_slice(), other.bytes.as_slice())
    }
}

impl vstd::std_specs::cmp::PartialEqSpecImpl for Comment {
    open spec fn obeys_eq_spec() -> bool {
        true
    }

    open spec fn eq_spec(&self, other: &Comment) -> bool {
        self@ == other@
    }
}

} // verus!
