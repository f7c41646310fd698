//! SSH public keys: the OpenSSH text line, the binary key blob, and
//! signature checks bound to a key and a namespace.
//!
//! A [`PublicKey`] is [`KeyData`], the algorithm of the key with its
//! material, and a [`Comment`]. It is read from and written to
//!
//! - the OpenSSH text line, `<algorithm id> <Base64 of the blob> <comment>`
//!   ([`PublicKey::from_openssh`], [`PublicKey::to_openssh`]), and
//! - the binary blob, which has no comment ([`PublicKey::from_bytes`],
//!   [`PublicKey::to_bytes`]).
//!
//! [`PublicKey::verify`] accepts a signature only from the very key and for
//! the very namespace, before anything cryptographic is done.
//!
//! Every function is verified against its contract. The contracts speak of
//! keys as mathematical values (`KeyModel`, `PublicKeyModel`); what is
//! written is proved to be read back as it was. What is taken on trust of
//! other crates and of the standard library is marked `Trusted` where it is
//! called: Base64 (`base64`), digests (`fingerprint`), and text (`text`).

pub mod algorithm;
pub mod base64;
pub mod comment;
pub mod error;
pub mod fingerprint;
pub mod key;
pub mod public_key;
pub mod signature;
pub mod ssh_format;
pub mod text;
pub mod wire;

pub use algorithm::{Algorithm, EcdsaCurve, HashAlg};
pub use comment::Comment;
pub use error::Error;
pub use fingerprint::Fingerprint;
pub use key::{
    DsaPublicKey, EcdsaPublicKey, Ed25519PublicKey, KeyData, OpaquePublicKey, RsaPublicKey,
    SkEcdsaSha2NistP256, SkEd25519,
};
pub use public_key::{PublicKey, Serialized};
pub use signature::SshSig;
