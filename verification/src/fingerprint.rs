//! Fingerprints: a hash of the binary blob of a key.

use crate::algorithm::HashAlg;
use sha2::{Digest, Sha256, Sha512};
use vstd::prelude::*;

verus! {

/// The SHA-256 digest of `data`.
pub uninterp spec fn sha256(data: Seq<u8>) -> Seq<u8>;

/// The SHA-512 digest of `data`.
pub uninterp spec fn sha512(data: Seq<u8>) -> Seq<u8>;

/// The digest of `data` under `algorithm`.
pub open spec fn digest(algorithm: HashAlg, data: Seq<u8>) -> Seq<u8> {
    match algorithm {
        HashAlg::Sha256 => sha256(data),
        HashAlg::Sha512 => sha512(data),
    }
}

/// The number of bytes in a digest of `algorithm`.
pub open spec fn digest_len(algorithm: HashAlg) -> nat {
    match algorithm {
        HashAlg::Sha256 => 32,
        HashAlg::Sha512 => 64,
    }
}

/// Calls `Sha256::digest` of the `sha2` crate.
///
/// Trusted: the result is `sha256(data)`, 32 bytes.
#[verifier::external_body]
fn sha256_digest(data: &[u8]) -> (r: Vec<u8>)
    ensures
        r@ == sha256(data@),
        r@.len() == 32,
{
    Sha256::digest(data).to_vec()
}

/// Calls `Sha512::digest` of the `sha2` crate.
///
/// Trusted: the result is `sha512(data)`, 64 bytes.
#[verifier::external_body]
fn sha512_digest(data: &[u8]) -> (r: Vec<u8>)
    ensures
        r@ == sha512(data@),
        r@.len() == 64,
{
    Sha512::digest(data).to_vec()
}

/// A fingerprint: the hash function and the digest it gave.
#[derive(Debug, PartialEq, Eq, PartialOrd, Ord, Hash)]
pub struct Fingerprint {
    /// The hash function.
    pub algorithm: HashAlg,
    /// The digest.
    pub digest: Vec<u8>,
}

impl Fingerprint {
    /// The fingerprint of `data` under `algorithm`.
    pub fn new(algorithm: HashAlg, data: &[u8]) -> (r: Fingerprint)
        ensures
            r.algorithm == algorithm,
            r.digest@ == digest(algorithm, data@),
            r.digest@.len() == digest_len(algorithm),
    {
        let digest = match algorithm {
            HashAlg::Sha256 => sha256_digest(data),
            HashAlg::Sha512 => sha512_digest(data),
        };
        Fingerprint { algorithm, digest }
    }

    /// The hash function of this fingerprint.
    pub fn algorithm(&self) -> (r: HashAlg)
        ensures
            r == self.algorithm,
    {
        self.algorithm
    }

    /// The digest of this fingerprint.
    pub fn as_bytes(&self) -> (r: &[u8])
        ensures
            r@ == self.digest@,
    {
        self.digest.as_slice()
    }
}

impl Clone for Fingerprint {
    fn clone(&self) -> (r: Fingerprint)
        ensures
            r.algorithm == self.algorithm,
            r.digest@ == self.digest@,
    {
        Fingerprint {
            algorithm: self.algorithm,
            digest: vstd::slice::slice_to_vec(self.digest.as_slice()),
        }
    }
}

} // verus!
