//! Signatures over messages: what a signature says of the key that made it
//! and of the namespace it was made for.

use crate::algorithm::HashAlg;
use crate::key::{KeyData, KeyModel};
use vstd::prelude::*;
use vstd::slice::slice_to_vec;

verus! {

/// A signature as a mathematical value.
pub struct SshSigModel {
    /// The key that made the signature.
    pub public_key: KeyModel,
    /// The namespace that the signature was made for.
    pub namespace: Seq<char>,
    /// The hash function that was applied to the message.
    pub hash_alg: HashAlg,
    /// The signature itself, as the signing algorithm wrote it.
    pub signature: Seq<u8>,
}

/// A signature over a message, bound to a key and to a namespace.
#[derive(Debug)]
pub struct SshSig {
    public_key: KeyData,
    namespace: String,
    hash_alg: HashAlg,
    signature: Vec<u8>,
}

impl View for SshSig {
    type V = SshSigModel;

    closed spec fn view(&self) -> SshSigModel {
        SshSigModel {
            public_key: self.public_key@,
            namespace: self.namespace@,
            hash_alg: self.hash_alg,
            signature: self.signature@,
        }
    }
}

impl SshSig {
    /// The signature with these parts.
    pub fn new(public_key: KeyData, namespace: &str, hash_alg: HashAlg, signature: Vec<u8>) -> (r:
        SshSig)
        ensures
            r@ == (SshSigModel {
                public_key: public_key@,
                namespace: namespace@,
                hash_alg,
                signature: signature@,
            }),
    {
        SshSig { public_key, namespace: namespace.to_owned(), hash_alg, signature }
    }

    /// The key that made the signature.
    pub fn public_key(&self) -> (r: &KeyData)
        ensures
            r@ == self@.public_key,
    {
        &self.public_key
    }

    /// The namespace that the signature was made for.
    pub fn namespace(&self) -> (r: &str)
        ensures
            r@ == self@.namespace,
    {
        self.namespace.as_str()
    }

    /// The hash function that was applied to the message.
    pub fn hash_alg(&self) -> (r: HashAlg)
        ensures
            r == self@.hash_alg,
    {
        self.hash_alg
    }

    /// The signature itself, as the signing algorithm wrote it.
    pub fn signature_bytes(&self) -> (r: &[u8])
        ensures
            r@ == self@.signature,
    {
        self.signature.as_slice()
    }
}

impl Clone for SshSig {
    fn clone(&self) -> (r: SshSig)
        ensures
            r@ == self@,
    {
        SshSig {
            public_key: self.public_key.clone(),
            namespace: self.namespace.clone(),
            hash_alg: self.hash_alg,
            signature: slice_to_vec(self.signature.as_slice()),
        }
    }
}

} // verus!
