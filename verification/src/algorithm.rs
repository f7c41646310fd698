//! Algorithm identifiers: the names by which SSH calls its key types.

use crate::error::Error;
use crate::text::{bytes_eq, str_from_utf8};
use vstd::prelude::*;
use vstd::string::*;
use vstd::utf8::*;

verus! {

/// Elliptic curves of the ECDSA key types.
#[derive(Clone, Copy, Debug, PartialEq, Eq, Structural, Hash, PartialOrd, Ord)]
pub enum EcdsaCurve {
    /// NIST P-256.
    NistP256,
    /// NIST P-384.
    NistP384,
    /// NIST P-521.
    NistP521,
}

/// Hash functions for fingerprints and signatures.
#[derive(Clone, Copy, Debug, PartialEq, Eq, Structural, Hash, PartialOrd, Ord)]
pub enum HashAlg {
    /// SHA-256.
    Sha256,
    /// SHA-512.
    Sha512,
}

impl Default for HashAlg {
    fn default() -> (r: HashAlg)
        ensures
            r == HashAlg::Sha256,
    {
        HashAlg::Sha256
    }
}

/// The algorithm of a public key.
#[derive(Debug, PartialEq, Eq, PartialOrd, Ord, Hash)]
pub enum Algorithm {
    /// Digital Signature Algorithm.
    Dsa,
    /// Elliptic Curve Digital Signature Algorithm.
    Ecdsa {
        /// The curve of the key.
        curve: EcdsaCurve,
    },
    /// Ed25519.
    Ed25519,
    /// RSA.
    Rsa,
    /// ECDSA on NIST P-256 held by a FIDO security key.
    SkEcdsaSha2NistP256,
    /// Ed25519 held by a FIDO security key.
    SkEd25519,
    /// An algorithm that this library does not know, by its name.
    Other(String),
}

/// `ssh-dss`
pub open spec fn id_dsa() -> Seq<u8> {
    encode_utf8("ssh-dss"@)
}

/// `ecdsa-sha2-nistp256`
pub open spec fn id_ecdsa_p256() -> Seq<u8> {
    encode_utf8("ecdsa-sha2-nistp256"@)
}

/// `ecdsa-sha2-nistp384`
pub open spec fn id_ecdsa_p384() -> Seq<u8> {
    encode_utf8("ecdsa-sha2-nistp384"@)
}

/// `ecdsa-sha2-nistp521`
pub open spec fn id_ecdsa_p521() -> Seq<u8> {
    encode_utf8("ecdsa-sha2-nistp521"@)
}

/// `ssh-ed25519`
pub open spec fn id_ed25519() -> Seq<u8> {
    encode_utf8("ssh-ed25519"@)
}

/// `ssh-rsa`
pub open spec fn id_rsa() -> Seq<u8> {
    encode_utf8("ssh-rsa"@)
}

/// `sk-ecdsa-sha2-nistp256@openssh.com`
pub open spec fn id_sk_ecdsa_p256() -> Seq<u8> {
    encode_utf8("sk-ecdsa-sha2-nistp256@openssh.com"@)
}

/// `sk-ssh-ed25519@openssh.com`
pub open spec fn id_sk_ed25519() -> Seq<u8> {
    encode_utf8("sk-ssh-ed25519@openssh.com"@)
}

/// The identifier of ECDSA on `curve`.
pub open spec fn id_ecdsa(curve: EcdsaCurve) -> Seq<u8> {
    match curve {
        EcdsaCurve::NistP256 => id_ecdsa_p256(),
        EcdsaCurve::NistP384 => id_ecdsa_p384(),
        EcdsaCurve::NistP521 => id_ecdsa_p521(),
    }
}

/// Whether `id` names an algorithm that this library knows.
pub open spec fn is_known_id(id: Seq<u8>) -> bool {
    ||| id == id_dsa()
    ||| id == id_ecdsa_p256()
    ||| id == id_ecdsa_p384()
    ||| id == id_ecdsa_p521()
    ||| id == id_ed25519()
    ||| id == id_rsa()
    ||| id == id_sk_ecdsa_p256()
    ||| id == id_sk_ed25519()
}

/// Longest name of an algorithm that this library does not know.
pub const MAX_NAME_LEN: usize = 64;

/// A byte that may stand in a name: printable ASCII, no space.
pub open spec fn is_name_byte(b: u8) -> bool {
    0x21 <= b <= 0x7e
}

/// Whether every byte of `id` may stand in a name.
pub open spec fn is_name_text(id: Seq<u8>) -> bool {
    forall|i: int| 0 <= i < id.len() ==> is_name_byte(#[trigger] id[i])
}

/// The number of `@` signs among the first `n` bytes of `id`.
pub open spec fn count_at(id: Seq<u8>, n: int) -> int
    decreases n,
{
    if n <= 0 {
        0
    } else {
        count_at(id, n - 1) + if id[n - 1] == 0x40u8 {
            1int
        } else {
            0int
        }
    }
}

/// Whether `id` can name an algorithm that this library does not know: at
/// most [`MAX_NAME_LEN`] printable ASCII bytes without a space, of the form
/// `name@domain` with one `@` and both parts non-empty.
pub open spec fn is_custom_name(id: Seq<u8>) -> bool {
    &&& !is_known_id(id)
    &&& 3 <= id.len() <= MAX_NAME_LEN
    &&& is_name_text(id)
    &&& count_at(id, id.len() as int) == 1
    &&& id[0] != 0x40u8
    &&& id[id.len() - 1] != 0x40u8
}

/// Whether `id` is the identifier of some algorithm, known or not.
pub open spec fn is_algorithm_id(id: Seq<u8>) -> bool {
    is_known_id(id) || is_custom_name(id)
}

/// What the known identifiers are made of: each is ASCII text that may stand
/// in a name, and no two of them are the same.
pub proof fn lemma_known_ids()
    ensures
        forall|id: Seq<u8>| #[trigger] is_known_id(id) ==> is_name_text(id) && 7 <= id.len() <= 34,
        id_dsa() != id_rsa(),
        id_dsa().len() == 7,
        id_rsa().len() == 7,
        id_ed25519().len() == 11,
        id_ecdsa_p256().len() == 19,
        id_ecdsa_p384().len() == 19,
        id_ecdsa_p521().len() == 19,
        id_sk_ed25519().len() == 26,
        id_sk_ecdsa_p256().len() == 34,
        id_ecdsa_p256() != id_ecdsa_p384(),
        id_ecdsa_p256() != id_ecdsa_p521(),
        id_ecdsa_p384() != id_ecdsa_p521(),
{
    reveal_strlit("ssh-dss");
    reveal_strlit("ssh-rsa");
    reveal_strlit("ssh-ed25519");
    reveal_strlit("ecdsa-sha2-nistp256");
    reveal_strlit("ecdsa-sha2-nistp384");
    reveal_strlit("ecdsa-sha2-nistp521");
    reveal_strlit("sk-ecdsa-sha2-nistp256@openssh.com");
    reveal_strlit("sk-ssh-ed25519@openssh.com");
    lemma_ascii_text("ssh-dss"@);
    lemma_ascii_text("ssh-rsa"@);
    lemma_ascii_text("ssh-ed25519"@);
    lemma_ascii_text("ecdsa-sha2-nistp256"@);
    lemma_ascii_text("ecdsa-sha2-nistp384"@);
    lemma_ascii_text("ecdsa-sha2-nistp521"@);
    lemma_ascii_text("sk-ecdsa-sha2-nistp256@openssh.com"@);
    lemma_ascii_text("sk-ssh-ed25519@openssh.com"@);
    assert(id_dsa()[4] != id_rsa()[4]);
    assert(id_ecdsa_p256()[16] != id_ecdsa_p384()[16]);
    assert(id_ecdsa_p256()[16] != id_ecdsa_p521()[16]);
    assert(id_ecdsa_p384()[16] != id_ecdsa_p521()[16]);
}

/// Whether every character of `chars` is printable ASCII other than a space.
pub open spec fn is_name_chars(chars: Seq<char>) -> bool {
    forall|i: int| 0 <= i < chars.len() ==> '!' <= #[trigger] chars[i] <= '~'
}

/// Text of printable ASCII characters is encoded one byte for each.
pub proof fn lemma_ascii_text(chars: Seq<char>)
    requires
        is_name_chars(chars),
    ensures
        encode_utf8(chars).len() == chars.len(),
        is_name_text(encode_utf8(chars)),
        forall|i: int| 0 <= i < chars.len() ==> #[trigger] encode_utf8(chars)[i] == chars[i] as u8,
{
    assert(is_ascii_chars(chars));
    is_ascii_chars_encode_utf8(chars);
    assert forall|i: int| 0 <= i < chars.len() implies is_name_byte(
        #[trigger] encode_utf8(chars)[i],
    ) by {
        assert('!' <= chars[i] <= '~');
    }
}

/// Bytes that may stand in a name are valid UTF-8 and encode themselves.
pub proof fn lemma_name_text_is_utf8(id: Seq<u8>)
    requires
        is_name_text(id),
    ensures
        valid_utf8(id),
        encode_utf8(decode_utf8(id)) == id,
{
    assert(id.subrange(0, 0) =~= Seq::<u8>::empty());
    assert(partial_valid_utf8(id, 0));
    assert forall|i: int| 0 <= i < id.len() implies #[trigger] is_leading_byte_width_1(id[i]) by {
        assert(is_name_byte(id[i]));
    }
    partial_valid_utf8_extend_ascii_block(id, 0, id.len() as int);
    assert(id.subrange(0, id.len() as int) =~= id);
    decode_utf8_encode_utf8(id);
}

/// Whether `id` has the form of a name for an algorithm that this library
/// does not know (whether it is one of the known identifiers is not looked at).
fn has_name_form(id: &[u8]) -> (r: bool)
    ensures
        r == {
            &&& 3 <= id@.len() <= MAX_NAME_LEN
            &&& is_name_text(id@)
            &&& count_at(id@, id@.len() as int) == 1
            &&& id@[0] != 0x40u8
            &&& id@[id@.len() - 1] != 0x40u8
        },
{
    let n = id.len();
    if n < 3 || n > MAX_NAME_LEN {
        return false;
    }
    if id[0] == 0x40 || id[n - 1] == 0x40 {
        return false;
    }
    let mut count: usize = 0;
    let mut i: usize = 0;
    while i < n
        invariant
            n == id@.len(),
            i <= n,
            count <= i,
            count == count_at(id@, i as int),
            forall|j: int| 0 <= j < i ==> is_name_byte(#[trigger] id@[j]),
        decreases n - i,
    {
        let b = id[i];
        if b < 0x21 || b > 0x7e {
            assert(!is_name_byte(id@[i as int]));
            return false;
        }
        if b == 0x40 {
            count += 1;
        }
        i += 1;
    }
    count == 1
}

impl Algorithm {
    /// The identifier of this algorithm, as bytes.
    pub open spec fn id(&self) -> Seq<u8> {
        match self {
            Algorithm::Dsa => id_dsa(),
            Algorithm::Ecdsa { curve } => id_ecdsa(*curve),
            Algorithm::Ed25519 => id_ed25519(),
            Algorithm::Rsa => id_rsa(),
            Algorithm::SkEcdsaSha2NistP256 => id_sk_ecdsa_p256(),
            Algorithm::SkEd25519 => id_sk_ed25519(),
            Algorithm::Other(name) => encode_utf8(name@),
        }
    }

    /// Whether the name of an algorithm that this library does not know is
    /// one that such an algorithm can have.
    pub open spec fn wf(&self) -> bool {
        self matches Algorithm::Other(name) ==> is_custom_name(encode_utf8(name@))
    }

    /// The identifier of this algorithm, as text.
    pub fn as_str(&self) -> (r: &str)
        ensures
            encode_utf8(r@) == self.id(),
    {
        match self {
            Algorithm::Dsa => "ssh-dss",
            Algorithm::Ecdsa { curve } => match curve {
                EcdsaCurve::NistP256 => "ecdsa-sha2-nistp256",
                EcdsaCurve::NistP384 => "ecdsa-sha2-nistp384",
                EcdsaCurve::NistP521 => "ecdsa-sha2-nistp521",
            },
            Algorithm::Ed25519 => "ssh-ed25519",
            Algorithm::Rsa => "ssh-rsa",
            Algorithm::SkEcdsaSha2NistP256 => "sk-ecdsa-sha2-nistp256@openssh.com",
            Algorithm::SkEd25519 => "sk-ssh-ed25519@openssh.com",
            Algorithm::Other(name) => name.as_str(),
        }
    }

    /// The algorithm that `id` names: one that this library knows, or another
    /// whose name has the form `name@domain`.
    pub fn from_id(id: &[u8]) -> (r: Result<Algorithm, Error>)
        ensures
            r is Ok <==> is_algorithm_id(id@),
            r matches Ok(a) ==> a.id() == id@ && a.wf() && (a is Other <==> !is_known_id(id@)),
            r matches Err(e) ==> e == Error::AlgorithmUnknown,
    {
        if bytes_eq(id, "ssh-dss".as_bytes()) {
            return Ok(Algorithm::Dsa);
        }
        if bytes_eq(id, "ecdsa-sha2-nistp256".as_bytes()) {
            return Ok(Algorithm::Ecdsa { curve: EcdsaCurve::NistP256 });
        }
        if bytes_eq(id, "ecdsa-sha2-nistp384".as_bytes()) {
            return Ok(Algorithm::Ecdsa { curve: EcdsaCurve::NistP384 });
        }
        if bytes_eq(id, "ecdsa-sha2-nistp521".as_bytes()) {
            return Ok(Algorithm::Ecdsa { curve: EcdsaCurve::NistP521 });
        }
        if bytes_eq(id, "ssh-ed25519".as_bytes()) {
            return Ok(Algorithm::Ed25519);
        }
        if bytes_eq(id, "ssh-rsa".as_bytes()) {
            return Ok(Algorithm::Rsa);
        }
        if bytes_eq(id, "sk-ecdsa-sha2-nistp256@openssh.com".as_bytes()) {
            return Ok(Algorithm::SkEcdsaSha2NistP256);
        }
        if bytes_eq(id, "sk-ssh-ed25519@openssh.com".as_bytes()) {
            return Ok(Algorithm::SkEd25519);
        }
        assert(!is_known_id(id@));
        if !has_name_form(id) {
            return Err(Error::AlgorithmUnknown);
        }
        proof {
            lemma_name_text_is_utf8(id@);
        }
        match str_from_utf8(id) {
            Some(name) => Ok(Algorithm::Other(name.to_owned())),
            None => Err(Error::AlgorithmUnknown),
        }
    }

    /// Whether `self` and `other` are the same algorithm.
    pub fn same_as(&self, other: &Algorithm) -> (r: bool)
        ensures
            r == (self.id() == other.id()),
    {
        bytes_eq(self.as_str().as_bytes(), other.as_str().as_bytes())
    }
}

impl Clone for Algorithm {
    fn clone(&self) -> (r: Algorithm)
        ensures
            r == *self,
    {
        match self {
            Algorithm::Dsa => Algorithm::Dsa,
            Algorithm::Ecdsa { curve } => Algorithm::Ecdsa { curve: *curve },
            Algorithm::Ed25519 => Algorithm::Ed25519,
            Algorithm::Rsa => Algorithm::Rsa,
            Algorithm::SkEcdsaSha2NistP256 => Algorithm::SkEcdsaSha2NistP256,
            Algorithm::SkEd25519 => Algorithm::SkEd25519,
            Algorithm::Other(name) => Algorithm::Other(name.clone()),
        }
    }
}

} // verus!
