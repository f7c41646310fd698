//! Base64, as the `ssh-encoding` crate reads and writes it (standard
//! alphabet, `=` padding, no line breaks).

use ssh_encoding::base64::{Base64, Encoding};
use ssh_encoding::{Base64Reader, Reader};
use vstd::prelude::*;
use vstd::utf8::encode_utf8;

verus! {

/// The Base64 text that `Base64::encode_string` produces for `data`.
pub uninterp spec fn base64_text(data: Seq<u8>) -> Seq<char>;

/// The bytes that a `Base64Reader` over `text` yields when read to its end,
/// or `None` where it refuses `text`.
pub uninterp spec fn base64_data(text: Seq<u8>) -> Option<Seq<u8>>;

/// A character of the standard Base64 alphabet, or the padding sign.
pub open spec fn is_base64_char(c: char) -> bool {
    ||| 'A' <= c <= 'Z'
    ||| 'a' <= c <= 'z'
    ||| '0' <= c <= '9'
    ||| c == '+'
    ||| c == '/'
    ||| c == '='
}

/// Whether the Base64 text of `data` is text of the alphabet, not empty, from
/// which a reader gets `data` again.
pub open spec fn base64_reads_back(data: Seq<u8>) -> bool {
    let text = base64_text(data);
    &&& text.len() > 0
    &&& forall|i: int| 0 <= i < text.len() ==> is_base64_char(#[trigger] text[i])
    &&& base64_data(encode_utf8(text)) == Some(data)
}

/// Calls `Base64::encode_string` of `ssh_encoding::base64` (the padded
/// standard encoding of `base64ct`), which panics on inputs longer than
/// `usize::MAX / 4`.
///
/// Trusted: the result is `base64_text(data)`; it has four characters for
/// every three bytes begun, all of them from the alphabet or `=`; and a
/// `Base64Reader` over the text of a non-empty `data` yields `data` again.
#[verifier::external_body]
pub(crate) fn base64_encode(data: &[u8]) -> (text: String)
    requires
        data@.len() <= usize::MAX / 4,
    ensures
        text@ == base64_text(data@),
        text@.len() == 4 * ((data@.len() + 2) / 3),
        forall|i: int| 0 <= i < text@.len() ==> is_base64_char(#[trigger] text@[i]),
        data@.len() > 0 ==> base64_data(encode_utf8(text@)) == Some(data@),
{
    Base64::encode_string(data)
}

/// Makes a `Base64Reader` of `ssh_encoding` over `text` and reads all that it
/// holds.
///
/// Trusted: the bytes read are `base64_data(text)`, and the reader fails
/// exactly where that is `None`.
#[verifier::external_body]
pub(crate) fn base64_decode(text: &[u8]) -> (r: Option<Vec<u8>>)
    ensures
        r matches Some(data) ==> base64_data(text@) == Some(data@),
        r is None ==> base64_data(text@) is None,
{
    let mut reader = Base64Reader::new(text).ok()?;
    let mut data = vec![0u8; reader.remaining_len()];
    reader.read(&mut data).ok()?;
    Some(data)
}

} // verus!
