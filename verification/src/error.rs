//! The ways in which decoding, encoding and verification fail.

use vstd::prelude::*;

verus! {

/// Why an operation on a public key failed.
#[derive(Clone, Copy, Debug, PartialEq, Eq, Structural, Hash)]
pub enum Error {
    /// The algorithm identifier is not supported, or the identifier of the
    /// text line differs from the one inside the key blob.
    AlgorithmUnknown,
    /// The signature does not verify under the key.
    Crypto,
    /// The text line, its Base64 payload or the binary blob is malformed, or
    /// bytes are left over after the key.
    FormatEncoding,
    /// A buffer is too small, or a value too long to be encoded.
    Length,
    /// The signature was made for another namespace.
    Namespace,
    /// The signature was made by another key.
    PublicKey,
}

} // verus!
