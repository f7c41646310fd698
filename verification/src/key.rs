//! Key data: the algorithm of a public key and its material, and the binary
//! blob that carries both.
//!
//! A blob is the algorithm identifier as a `string`, then the fields of the
//! material, each a `string`, in the order the algorithm fixes. A key of an
//! algorithm that this library does not know keeps what follows the
//! identifier as it is.

use crate::algorithm::{
    id_dsa, id_ecdsa, id_ecdsa_p256, id_ecdsa_p384, id_ed25519, id_rsa, id_sk_ecdsa_p256,
    id_sk_ed25519, is_custom_name, is_known_id, lemma_ascii_text, lemma_known_ids, Algorithm,
    EcdsaCurve,
};
use crate::error::Error;
use crate::text::bytes_eq;
use crate::wire::{
    lemma_be_round_trip, lemma_parse_string_bounds, lemma_parse_string_exact,
    lemma_parse_strings_bounds, lemma_parse_strings_exact,
    lemma_string_round_trip, lemma_strings_push, lemma_strings_round_trip, parse_string,
    parse_strings, read_string, read_strings, string, strings, views, write_string, MAX_FIELD_LEN,
};
use vstd::prelude::*;
use vstd::slice::{slice_subrange, slice_to_vec};
use vstd::utf8::encode_utf8;

verus! {

/// A key as a mathematical value: the identifier of its algorithm, the fields
/// of its material, and, for an algorithm that this library does not know,
/// the bytes after the identifier.
pub struct KeyModel {
    /// The algorithm identifier.
    pub algorithm: Seq<u8>,
    /// The length-prefixed fields of the material, in order.
    pub fields: Seq<Seq<u8>>,
    /// The bytes of the material that are not split into fields.
    pub tail: Seq<u8>,
}

/// The name that a blob gives to `curve`.
pub open spec fn curve_name(curve: EcdsaCurve) -> Seq<u8> {
    match curve {
        EcdsaCurve::NistP256 => encode_utf8("nistp256"@),
        EcdsaCurve::NistP384 => encode_utf8("nistp384"@),
        EcdsaCurve::NistP521 => encode_utf8("nistp521"@),
    }
}

/// The length of an uncompressed point of `curve`.
pub open spec fn point_len(curve: EcdsaCurve) -> nat {
    match curve {
        EcdsaCurve::NistP256 => 65,
        EcdsaCurve::NistP384 => 97,
        EcdsaCurve::NistP521 => 133,
    }
}

/// Whether `point` has the form of an uncompressed point of `curve`: the tag
/// 4, then two coordinates of the curve's size.
pub open spec fn is_point(curve: EcdsaCurve, point: Seq<u8>) -> bool {
    point.len() == point_len(curve) && point[0] == 4u8
}

/// Whether `bytes` is a non-negative `mpint` in its shortest form: no
/// leading sign bit, and no leading zero byte but the one that keeps the
/// sign bit clear.
pub open spec fn is_mpint(bytes: Seq<u8>) -> bool {
    &&& bytes.len() <= MAX_FIELD_LEN
    &&& bytes.len() > 0 ==> bytes[0] < 0x80u8
    &&& bytes.len() > 0 && bytes[0] == 0u8 ==> bytes.len() > 1 && bytes[1] >= 0x80u8
}

/// Whether `bytes` is an Ed25519 public key: 32 bytes.
pub open spec fn is_ed25519_key(bytes: Seq<u8>) -> bool {
    bytes.len() == 32
}

/// The number of fields in the material of the known algorithm `id`.
pub open spec fn field_count(id: Seq<u8>) -> nat {
    if id == id_dsa() {
        4
    } else if id == id_rsa() {
        2
    } else if id == id_ed25519() {
        1
    } else if id == id_sk_ed25519() {
        2
    } else if id == id_sk_ecdsa_p256() {
        3
    } else {
        2
    }
}

/// Whether `fields` are the fields of an ECDSA key on `curve`: the curve's
/// name and a point.
pub open spec fn ecdsa_fields_ok(curve: EcdsaCurve, fields: Seq<Seq<u8>>) -> bool {
    fields[0] == curve_name(curve) && is_point(curve, fields[1])
}

/// Whether `fields`, as many as [`field_count`] asks for, are material of the
/// known algorithm `id`.
pub open spec fn fields_ok(id: Seq<u8>, fields: Seq<Seq<u8>>) -> bool {
    if id == id_dsa() {
        is_mpint(fields[0]) && is_mpint(fields[1]) && is_mpint(fields[2]) && is_mpint(fields[3])
    } else if id == id_rsa() {
        is_mpint(fields[0]) && is_mpint(fields[1])
    } else if id == id_ed25519() {
        is_ed25519_key(fields[0])
    } else if id == id_sk_ed25519() {
        is_ed25519_key(fields[0]) && fields[1].len() <= MAX_FIELD_LEN
    } else if id == id_sk_ecdsa_p256() {
        ecdsa_fields_ok(EcdsaCurve::NistP256, fields) && fields[2].len() <= MAX_FIELD_LEN
    } else if id == id_ecdsa_p256() {
        ecdsa_fields_ok(EcdsaCurve::NistP256, fields)
    } else if id == id_ecdsa_p384() {
        ecdsa_fields_ok(EcdsaCurve::NistP384, fields)
    } else {
        ecdsa_fields_ok(EcdsaCurve::NistP521, fields)
    }
}

/// The DSA key with the parameters `p`, `q`, `g` and the public value `y`.
pub open spec fn dsa_model(p: Seq<u8>, q: Seq<u8>, g: Seq<u8>, y: Seq<u8>) -> KeyModel {
    KeyModel { algorithm: id_dsa(), fields: seq![p, q, g, y], tail: Seq::empty() }
}

/// The ECDSA key on `curve` with the public point `point`.
pub open spec fn ecdsa_model(curve: EcdsaCurve, point: Seq<u8>) -> KeyModel {
    KeyModel {
        algorithm: id_ecdsa(curve),
        fields: seq![curve_name(curve), point],
        tail: Seq::empty(),
    }
}

/// The Ed25519 key with the public bytes `key`.
pub open spec fn ed25519_model(key: Seq<u8>) -> KeyModel {
    KeyModel { algorithm: id_ed25519(), fields: seq![key], tail: Seq::empty() }
}

/// The RSA key with the public exponent `e` and the modulus `n`.
pub open spec fn rsa_model(e: Seq<u8>, n: Seq<u8>) -> KeyModel {
    KeyModel { algorithm: id_rsa(), fields: seq![e, n], tail: Seq::empty() }
}

/// The security-key ECDSA key with the public point `point`, for `application`.
pub open spec fn sk_ecdsa_model(point: Seq<u8>, application: Seq<u8>) -> KeyModel {
    KeyModel {
        algorithm: id_sk_ecdsa_p256(),
        fields: seq![curve_name(EcdsaCurve::NistP256), point, application],
        tail: Seq::empty(),
    }
}

/// The security-key Ed25519 key with the public bytes `key`, for `application`.
pub open spec fn sk_ed25519_model(key: Seq<u8>, application: Seq<u8>) -> KeyModel {
    KeyModel { algorithm: id_sk_ed25519(), fields: seq![key, application], tail: Seq::empty() }
}

/// The key of the algorithm named `algorithm`, which this library does not
/// know, with the material `key`.
pub open spec fn opaque_model(algorithm: Seq<u8>, key: Seq<u8>) -> KeyModel {
    KeyModel { algorithm, fields: Seq::empty(), tail: key }
}

impl KeyModel {
    /// Whether this is a key: of a known algorithm with material of that
    /// algorithm's form, or of another algorithm with a name of the form
    /// `name@domain`.
    pub open spec fn wf(self) -> bool {
        if is_known_id(self.algorithm) {
            &&& self.fields.len() == field_count(self.algorithm)
            &&& fields_ok(self.algorithm, self.fields)
            &&& self.tail.len() == 0
        } else {
            is_custom_name(self.algorithm) && self.fields.len() == 0
        }
    }

    /// The binary blob of this key.
    pub open spec fn encoding(self) -> Seq<u8> {
        string(self.algorithm) + strings(self.fields) + self.tail
    }
}

/// Reads a key from the front of `bytes`: the key and the number of bytes it
/// occupies. A key of an algorithm that this library does not know occupies
/// all of `bytes`.
pub open spec fn decode_key(bytes: Seq<u8>) -> Result<(KeyModel, int), Error> {
    match parse_string(bytes) {
        None => Err(Error::FormatEncoding),
        Some((id, used)) => {
            let rest = bytes.skip(used);
            if is_known_id(id) {
                match parse_strings(rest, field_count(id)) {
                    None => Err(Error::FormatEncoding),
                    Some((fields, more)) => if fields_ok(id, fields) {
                        Ok((KeyModel { algorithm: id, fields, tail: Seq::empty() }, used + more))
                    } else {
                        Err(Error::FormatEncoding)
                    },
                }
            } else if is_custom_name(id) {
                Ok(
                    (
                        KeyModel { algorithm: id, fields: Seq::empty(), tail: rest },
                        bytes.len() as int,
                    ),
                )
            } else {
                Err(Error::AlgorithmUnknown)
            }
        },
    }
}

/// The names of the curves are eight bytes each, and no two are the same.
pub proof fn lemma_curve_names()
    ensures
        forall|curve: EcdsaCurve| (#[trigger] curve_name(curve)).len() == 8,
        curve_name(EcdsaCurve::NistP256) != curve_name(EcdsaCurve::NistP384),
        curve_name(EcdsaCurve::NistP256) != curve_name(EcdsaCurve::NistP521),
        curve_name(EcdsaCurve::NistP384) != curve_name(EcdsaCurve::NistP521),
{
    reveal_strlit("nistp256");
    reveal_strlit("nistp384");
    reveal_strlit("nistp521");
    lemma_ascii_text("nistp256"@);
    lemma_ascii_text("nistp384"@);
    lemma_ascii_text("nistp521"@);
    assert(curve_name(EcdsaCurve::NistP256)[5] != curve_name(EcdsaCurve::NistP384)[5]);
    assert(curve_name(EcdsaCurve::NistP256)[5] != curve_name(EcdsaCurve::NistP521)[5]);
    assert(curve_name(EcdsaCurve::NistP384)[5] != curve_name(EcdsaCurve::NistP521)[5]);
}

/// Every part of a key is short enough for a length prefix.
pub proof fn lemma_wf_lengths(k: KeyModel)
    requires
        k.wf(),
    ensures
        k.algorithm.len() <= MAX_FIELD_LEN,
        forall|i: int| 0 <= i < k.fields.len() ==> (#[trigger] k.fields[i]).len() <= MAX_FIELD_LEN,
{
    lemma_known_ids();
    lemma_curve_names();
}

/// What is read as a key is a key, and stands at the front of the input as
/// its blob.
pub proof fn lemma_decode_key_exact(bytes: Seq<u8>)
    ensures
        decode_key(bytes) matches Ok((k, used)) ==> k.wf() && 4 <= used <= bytes.len()
            && bytes.subrange(0, used) == k.encoding(),
{
    lemma_parse_string_bounds(bytes);
    lemma_parse_string_exact(bytes);
    if let Some((id, used)) = parse_string(bytes) {
        let rest = bytes.skip(used);
        if is_known_id(id) {
            lemma_parse_strings_bounds(rest, field_count(id));
            lemma_parse_strings_exact(rest, field_count(id));
            if let Some((fields, more)) = parse_strings(rest, field_count(id)) {
                assert(bytes.subrange(0, used + more) =~= bytes.subrange(0, used) + rest.subrange(
                    0,
                    more,
                ));
                assert(string(id) + strings(fields) + Seq::<u8>::empty() =~= string(id) + strings(
                    fields,
                ));
            }
        } else if is_custom_name(id) {
            assert(strings(Seq::<Seq<u8>>::empty()) =~= Seq::<u8>::empty());
            assert(bytes.subrange(0, bytes.len() as int) =~= string(id) + Seq::<u8>::empty()
                + rest);
        }
    }
}

/// The blob of a key is read back as that key, and whatever follows the blob
/// of a known algorithm is left unread.
pub proof fn lemma_key_round_trip(k: KeyModel, rest: Seq<u8>)
    requires
        k.wf(),
        is_known_id(k.algorithm) || rest.len() == 0,
    ensures
        decode_key(k.encoding() + rest) == Ok::<(KeyModel, int), Error>(
            (k, k.encoding().len() as int),
        ),
{
    lemma_wf_lengths(k);
    let bytes = k.encoding() + rest;
    let after = strings(k.fields) + k.tail + rest;
    assert(bytes =~= string(k.algorithm) + after);
    lemma_string_round_trip(k.algorithm, after);
    let used = 4 + k.algorithm.len() as int;
    assert(string(k.algorithm).len() == used) by {
        lemma_be_round_trip(k.algorithm.len() as int);
    }
    assert(bytes.skip(used) =~= after);
    if is_known_id(k.algorithm) {
        assert(after =~= strings(k.fields) + rest);
        lemma_strings_round_trip(k.fields, rest);
        assert(k.tail =~= Seq::<u8>::empty());
        assert(k.encoding().len() == used + strings(k.fields).len());
    } else {
        assert(k.fields =~= Seq::<Seq<u8>>::empty());
        assert(strings(k.fields) =~= Seq::<u8>::empty());
        assert(after =~= k.tail);
        assert(k.encoding().len() == bytes.len());
    }
}

/// Whether `bytes` is a non-negative `mpint` in its shortest form.
fn check_mpint(bytes: &[u8]) -> (r: bool)
    ensures
        r == is_mpint(bytes@),
{
    let n = bytes.len();
    if n > MAX_FIELD_LEN {
        return false;
    }
    if n == 0 {
        return true;
    }
    if bytes[0] >= 0x80 {
        return false;
    }
    if bytes[0] == 0 {
        return n > 1 && bytes[1] >= 0x80;
    }
    true
}

/// Whether `point` has the form of an uncompressed point of `curve`.
fn check_point(curve: EcdsaCurve, point: &[u8]) -> (r: bool)
    ensures
        r == is_point(curve, point@),
{
    let len: usize = match curve {
        EcdsaCurve::NistP256 => 65,
        EcdsaCurve::NistP384 => 97,
        EcdsaCurve::NistP521 => 133,
    };
    point.len() == len && point[0] == 4
}

/// The name that a blob gives to `curve`, as text.
fn curve_name_str(curve: EcdsaCurve) -> (r: &'static str)
    ensures
        encode_utf8(r@) == curve_name(curve),
{
    match curve {
        EcdsaCurve::NistP256 => "nistp256",
        EcdsaCurve::NistP384 => "nistp384",
        EcdsaCurve::NistP521 => "nistp521",
    }
}

/// The number of fields in the material of `algorithm`.
fn count_fields(algorithm: &Algorithm) -> (n: usize)
    requires
        !(algorithm is Other),
    ensures
        n == field_count(algorithm.id()),
        1 <= n <= 4,
{
    proof {
        lemma_known_ids();
    }
    match algorithm {
        Algorithm::Dsa => 4,
        Algorithm::Rsa => 2,
        Algorithm::Ed25519 => 1,
        Algorithm::SkEd25519 => 2,
        Algorithm::SkEcdsaSha2NistP256 => 3,
        _ => 2,
    }
}

/// Whether the first two of `fields` are the name of `curve` and a point on it.
fn check_ecdsa_fields(curve: EcdsaCurve, fields: &Vec<Vec<u8>>) -> (r: bool)
    requires
        fields@.len() >= 2,
    ensures
        r == ecdsa_fields_ok(curve, views(fields@)),
{
    bytes_eq(fields[0].as_slice(), curve_name_str(curve).as_bytes()) && check_point(
        curve,
        fields[1].as_slice(),
    )
}

/// Whether `fields` are material of `algorithm`.
fn check_fields(algorithm: &Algorithm, fields: &Vec<Vec<u8>>) -> (r: bool)
    requires
        !(algorithm is Other),
        fields@.len() == field_count(algorithm.id()),
    ensures
        r == fields_ok(algorithm.id(), views(fields@)),
{
    proof {
        lemma_known_ids();
    }
    match algorithm {
        Algorithm::Dsa => check_mpint(fields[0].as_slice()) && check_mpint(fields[1].as_slice())
            && check_mpint(fields[2].as_slice()) && check_mpint(fields[3].as_slice()),
        Algorithm::Rsa => check_mpint(fields[0].as_slice()) && check_mpint(fields[1].as_slice()),
        Algorithm::Ed25519 => fields[0].len() == 32,
        Algorithm::SkEd25519 => fields[0].len() == 32 && fields[1].len() <= MAX_FIELD_LEN,
        Algorithm::SkEcdsaSha2NistP256 => check_ecdsa_fields(EcdsaCurve::NistP256, fields)
            && fields[2].len() <= MAX_FIELD_LEN,
        Algorithm::Ecdsa { curve } => check_ecdsa_fields(*curve, fields),
        Algorithm::Other(_) => false,
    }
}

/// A DSA public key.
#[derive(Debug, PartialEq, Eq, PartialOrd, Ord, Hash)]
pub struct DsaPublicKey {
    p: Vec<u8>,
    q: Vec<u8>,
    g: Vec<u8>,
    y: Vec<u8>,
}

impl View for DsaPublicKey {
    type V = KeyModel;

    closed spec fn view(&self) -> KeyModel {
        dsa_model(self.p@, self.q@, self.g@, self.y@)
    }
}

impl DsaPublicKey {
    #[verifier::type_invariant]
    spec fn inv(self) -> bool {
        is_mpint(self.p@) && is_mpint(self.q@) && is_mpint(self.g@) && is_mpint(self.y@)
    }

    /// The key with the prime `p`, the subgroup order `q`, the generator `g`
    /// and the public value `y`, each a non-negative number in its shortest
    /// big-endian form.
    pub fn new(p: Vec<u8>, q: Vec<u8>, g: Vec<u8>, y: Vec<u8>) -> (r: Result<DsaPublicKey, Error>)
        ensures
            r is Ok <==> is_mpint(p@) && is_mpint(q@) && is_mpint(g@) && is_mpint(y@),
            r matches Ok(k) ==> k@ == dsa_model(p@, q@, g@, y@),
            r matches Err(e) ==> e == Error::FormatEncoding,
    {
        if check_mpint(p.as_slice()) && check_mpint(q.as_slice()) && check_mpint(g.as_slice())
            && check_mpint(y.as_slice()) {
            Ok(DsaPublicKey { p, q, g, y })
        } else {
            Err(Error::FormatEncoding)
        }
    }

    /// The prime.
    pub fn p(&self) -> (r: &[u8])
        ensures
            r@ == self@.fields[0],
    {
        self.p.as_slice()
    }

    /// The order of the subgroup.
    pub fn q(&self) -> (r: &[u8])
        ensures
            r@ == self@.fields[1],
    {
        self.q.as_slice()
    }

    /// The generator.
    pub fn g(&self) -> (r: &[u8])
        ensures
            r@ == self@.fields[2],
    {
        self.g.as_slice()
    }

    /// The public value.
    pub fn y(&self) -> (r: &[u8])
        ensures
            r@ == self@.fields[3],
    {
        self.y.as_slice()
    }
}

impl Clone for DsaPublicKey {
    fn clone(&self) -> (r: DsaPublicKey)
        ensures
            r@ == self@,
    {
        proof {
            use_type_invariant(self);
        }
        DsaPublicKey {
            p: slice_to_vec(self.p.as_slice()),
            q: slice_to_vec(self.q.as_slice()),
            g: slice_to_vec(self.g.as_slice()),
            y: slice_to_vec(self.y.as_slice()),
        }
    }
}

/// An ECDSA public key.
#[derive(Debug, PartialEq, Eq, PartialOrd, Ord, Hash)]
pub struct EcdsaPublicKey {
    curve: EcdsaCurve,
    point: Vec<u8>,
}

impl View for EcdsaPublicKey {
    type V = KeyModel;

    closed spec fn view(&self) -> KeyModel {
        ecdsa_model(self.curve, self.point@)
    }
}

impl EcdsaPublicKey {
    #[verifier::type_invariant]
    spec fn inv(self) -> bool {
        is_point(self.curve, self.point@)
    }

    /// The key on `curve` with the public point `point`, in uncompressed form.
    pub fn new(curve: EcdsaCurve, point: Vec<u8>) -> (r: Result<EcdsaPublicKey, Error>)
        ensures
            r is Ok <==> is_point(curve, point@),
            r matches Ok(k) ==> k@ == ecdsa_model(curve, point@),
            r matches Err(e) ==> e == Error::FormatEncoding,
    {
        if check_point(curve, point.as_slice()) {
            Ok(EcdsaPublicKey { curve, point })
        } else {
            Err(Error::FormatEncoding)
        }
    }

    /// The curve of the key.
    pub fn curve(&self) -> (r: EcdsaCurve)
        ensures
            self@ == ecdsa_model(r, self@.fields[1]),
    {
        self.curve
    }

    /// The public point, in uncompressed form.
    pub fn as_sec1_bytes(&self) -> (r: &[u8])
        ensures
            r@ == self@.fields[1],
    {
        self.point.as_slice()
    }
}

impl Clone for EcdsaPublicKey {
    fn clone(&self) -> (r: EcdsaPublicKey)
        ensures
            r@ == self@,
    {
        proof {
            use_type_invariant(self);
        }
        EcdsaPublicKey { curve: self.curve, point: slice_to_vec(self.point.as_slice()) }
    }
}

/// An Ed25519 public key.
#[derive(Debug, PartialEq, Eq, PartialOrd, Ord, Hash)]
pub struct Ed25519PublicKey {
    bytes: Vec<u8>,
}

impl View for Ed25519PublicKey {
    type V = KeyModel;

    closed spec fn view(&self) -> KeyModel {
        ed25519_model(self.bytes@)
    }
}

impl Ed25519PublicKey {
    #[verifier::type_invariant]
    spec fn inv(self) -> bool {
        is_ed25519_key(self.bytes@)
    }

    /// The key with the 32 public bytes `bytes`.
    pub fn new(bytes: Vec<u8>) -> (r: Result<Ed25519PublicKey, Error>)
        ensures
            r is Ok <==> is_ed25519_key(bytes@),
            r matches Ok(k) ==> k@ == ed25519_model(bytes@),
            r matches Err(e) ==> e == Error::FormatEncoding,
    {
        if bytes.len() == 32 {
            Ok(Ed25519PublicKey { bytes })
        } else {
            Err(Error::FormatEncoding)
        }
    }

    /// The 32 public bytes.
    pub fn as_bytes(&self) -> (r: &[u8])
        ensures
            r@ == self@.fields[0],
            r@.len() == 32,
    {
        proof {
            use_type_invariant(self);
        }
        self.bytes.as_slice()
    }
}

impl Clone for Ed25519PublicKey {
    fn clone(&self) -> (r: Ed25519PublicKey)
        ensures
            r@ == self@,
    {
        proof {
            use_type_invariant(self);
        }
        Ed25519PublicKey { bytes: slice_to_vec(self.bytes.as_slice()) }
    }
}

/// An RSA public key.
#[derive(Debug, PartialEq, Eq, PartialOrd, Ord, Hash)]
pub struct RsaPublicKey {
    e: Vec<u8>,
    n: Vec<u8>,
}

impl View for RsaPublicKey {
    type V = KeyModel;

    closed spec fn view(&self) -> KeyModel {
        rsa_model(self.e@, self.n@)
    }
}

impl RsaPublicKey {
    #[verifier::type_invariant]
    spec fn inv(self) -> bool {
        is_mpint(self.e@) && is_mpint(self.n@)
    }

    /// The key with the public exponent `e` and the modulus `n`, each a
    /// non-negative number in its shortest big-endian form.
    pub fn new(e: Vec<u8>, n: Vec<u8>) -> (r: Result<RsaPublicKey, Error>)
        ensures
            r is Ok <==> is_mpint(e@) && is_mpint(n@),
            r matches Ok(k) ==> k@ == rsa_model(e@, n@),
            r matches Err(e) ==> e == Error::FormatEncoding,
    {
        if check_mpint(e.as_slice()) && check_mpint(n.as_slice()) {
            Ok(RsaPublicKey { e, n })
        } else {
            Err(Error::FormatEncoding)
        }
    }

    /// The public exponent.
    pub fn e(&self) -> (r: &[u8])
        ensures
            r@ == self@.fields[0],
    {
        self.e.as_slice()
    }

    /// The modulus.
    pub fn n(&self) -> (r: &[u8])
        ensures
            r@ == self@.fields[1],
    {
        self.n.as_slice()
    }
}

impl Clone for RsaPublicKey {
    fn clone(&self) -> (r: RsaPublicKey)
        ensures
            r@ == self@,
    {
        proof {
            use_type_invariant(self);
        }
        RsaPublicKey { e: slice_to_vec(self.e.as_slice()), n: slice_to_vec(self.n.as_slice()) }
    }
}

/// An ECDSA public key on NIST P-256 that a FIDO security key holds.
#[derive(Debug, PartialEq, Eq, PartialOrd, Ord, Hash)]
pub struct SkEcdsaSha2NistP256 {
    point: Vec<u8>,
    application: Vec<u8>,
}

impl View for SkEcdsaSha2NistP256 {
    type V = KeyModel;

    closed spec fn view(&self) -> KeyModel {
        sk_ecdsa_model(self.point@, self.application@)
    }
}

impl SkEcdsaSha2NistP256 {
    #[verifier::type_invariant]
    spec fn inv(self) -> bool {
        is_point(EcdsaCurve::NistP256, self.point@) && self.application@.len() <= MAX_FIELD_LEN
    }

    /// The key with the public point `point`, in uncompressed form, for
    /// `application` (most often `ssh:`).
    pub fn new(point: Vec<u8>, application: Vec<u8>) -> (r: Result<SkEcdsaSha2NistP256, Error>)
        ensures
            r is Ok <==> is_point(EcdsaCurve::NistP256, point@) && application@.len()
                <= MAX_FIELD_LEN,
            r matches Ok(k) ==> k@ == sk_ecdsa_model(point@, application@),
            r matches Err(e) ==> e == Error::FormatEncoding,
    {
        if check_point(EcdsaCurve::NistP256, point.as_slice()) && application.len()
            <= MAX_FIELD_LEN {
            Ok(SkEcdsaSha2NistP256 { point, application })
        } else {
            Err(Error::FormatEncoding)
        }
    }

    /// The public point, in uncompressed form.
    pub fn ec_point(&self) -> (r: &[u8])
        ensures
            r@ == self@.fields[1],
    {
        self.point.as_slice()
    }

    /// The application that the key is for.
    pub fn application(&self) -> (r: &[u8])
        ensures
            r@ == self@.fields[2],
    {
        self.application.as_slice()
    }
}

impl Clone for SkEcdsaSha2NistP256 {
    fn clone(&self) -> (r: SkEcdsaSha2NistP256)
        ensures
            r@ == self@,
    {
        proof {
            use_type_invariant(self);
        }
        SkEcdsaSha2NistP256 {
            point: slice_to_vec(self.point.as_slice()),
            application: slice_to_vec(self.application.as_slice()),
        }
    }
}

/// An Ed25519 public key that a FIDO security key holds.
#[derive(Debug, PartialEq, Eq, PartialOrd, Ord, Hash)]
pub struct SkEd25519 {
    public_key: Vec<u8>,
    application: Vec<u8>,
}

impl View for SkEd25519 {
    type V = KeyModel;

    closed spec fn view(&self) -> KeyModel {
        sk_ed25519_model(self.public_key@, self.application@)
    }
}

impl SkEd25519 {
    #[verifier::type_invariant]
    spec fn inv(self) -> bool {
        is_ed25519_key(self.public_key@) && self.application@.len() <= MAX_FIELD_LEN
    }

    /// The key with the 32 public bytes `public_key`, for `application`
    /// (most often `ssh:`).
    pub fn new(public_key: Vec<u8>, application: Vec<u8>) -> (r: Result<SkEd25519, Error>)
        ensures
            r is Ok <==> is_ed25519_key(public_key@) && application@.len() <= MAX_FIELD_LEN,
            r matches Ok(k) ==> k@ == sk_ed25519_model(public_key@, application@),
            r matches Err(e) ==> e == Error::FormatEncoding,
    {
        if public_key.len() == 32 && application.len() <= MAX_FIELD_LEN {
            Ok(SkEd25519 { public_key, application })
        } else {
            Err(Error::FormatEncoding)
        }
    }

    /// The 32 public bytes.
    pub fn public_key(&self) -> (r: &[u8])
        ensures
            r@ == self@.fields[0],
    {
        self.public_key.as_slice()
    }

    /// The application that the key is for.
    pub fn application(&self) -> (r: &[u8])
        ensures
            r@ == self@.fields[1],
    {
        self.application.as_slice()
    }
}

impl Clone for SkEd25519 {
    fn clone(&self) -> (r: SkEd25519)
        ensures
            r@ == self@,
    {
        proof {
            use_type_invariant(self);
        }
        SkEd25519 {
            public_key: slice_to_vec(self.public_key.as_slice()),
            application: slice_to_vec(self.application.as_slice()),
        }
    }
}

/// A public key of an algorithm that this library does not know: the name of
/// the algorithm, and the material as it stands in the blob.
#[derive(Debug, PartialEq, Eq, PartialOrd, Ord, Hash)]
pub struct OpaquePublicKey {
    algorithm: String,
    key: Vec<u8>,
}

impl View for OpaquePublicKey {
    type V = KeyModel;

    closed spec fn view(&self) -> KeyModel {
        opaque_model(encode_utf8(self.algorithm@), self.key@)
    }
}

impl OpaquePublicKey {
    #[verifier::type_invariant]
    spec fn inv(self) -> bool {
        is_custom_name(encode_utf8(self.algorithm@))
    }

    /// The key of `algorithm`, which must be [`Algorithm::Other`] with a
    /// name of the form `name@domain`, with the material `key`.
    pub fn new(algorithm: Algorithm, key: Vec<u8>) -> (r: Result<OpaquePublicKey, Error>)
        ensures
            r is Ok <==> algorithm is Other && algorithm.wf(),
            r matches Ok(k) ==> k@ == opaque_model(algorithm.id(), key@),
            r matches Err(e) ==> e == Error::AlgorithmUnknown,
    {
        match algorithm {
            Algorithm::Other(name) => {
                match Algorithm::from_id(name.as_str().as_bytes()) {
                    Ok(Algorithm::Other(_)) => Ok(OpaquePublicKey { algorithm: name, key }),
                    _ => Err(Error::AlgorithmUnknown),
                }
            },
            _ => Err(Error::AlgorithmUnknown),
        }
    }

    /// The name of the algorithm.
    pub fn algorithm_name(&self) -> (r: &str)
        ensures
            encode_utf8(r@) == self@.algorithm,
    {
        self.algorithm.as_str()
    }

    /// The material, as it stands in the blob.
    pub fn as_bytes(&self) -> (r: &[u8])
        ensures
            r@ == self@.tail,
    {
        self.key.as_slice()
    }
}

impl Clone for OpaquePublicKey {
    fn clone(&self) -> (r: OpaquePublicKey)
        ensures
            r@ == self@,
    {
        proof {
            use_type_invariant(self);
        }
        OpaquePublicKey { algorithm: self.algorithm.clone(), key: slice_to_vec(self.key.as_slice()) }
    }
}

/// The algorithm of a public key and its material: one variant for each
/// algorithm that this library knows, and one for all others.
#[derive(Debug, Eq, PartialOrd, Ord, Hash)]
pub enum KeyData {
    /// A DSA key.
    Dsa(DsaPublicKey),
    /// An ECDSA key.
    Ecdsa(EcdsaPublicKey),
    /// An Ed25519 key.
    Ed25519(Ed25519PublicKey),
    /// An RSA key.
    Rsa(RsaPublicKey),
    /// An ECDSA key on NIST P-256 that a security key holds.
    SkEcdsaSha2NistP256(SkEcdsaSha2NistP256),
    /// An Ed25519 key that a security key holds.
    SkEd25519(SkEd25519),
    /// A key of an algorithm that this library does not know.
    Other(OpaquePublicKey),
}

impl View for KeyData {
    type V = KeyModel;

    open spec fn view(&self) -> KeyModel {
        match self {
            KeyData::Dsa(k) => k@,
            KeyData::Ecdsa(k) => k@,
            KeyData::Ed25519(k) => k@,
            KeyData::Rsa(k) => k@,
            KeyData::SkEcdsaSha2NistP256(k) => k@,
            KeyData::SkEd25519(k) => k@,
            KeyData::Other(k) => k@,
        }
    }
}

/// The key that `algorithm`, `fields` and `tail` describe.
pub open spec fn key_model(algorithm: Algorithm, fields: Vec<Vec<u8>>, tail: Vec<u8>) -> KeyModel {
    KeyModel { algorithm: algorithm.id(), fields: views(fields@), tail: tail@ }
}

/// Takes the last of `fields`.
fn take_last(fields: &mut Vec<Vec<u8>>) -> (r: Vec<u8>)
    requires
        old(fields)@.len() > 0,
    ensures
        r@ == views(old(fields)@).last(),
        final(fields)@ == old(fields)@.drop_last(),
        views(final(fields)@) == views(old(fields)@).drop_last(),
{
    let last = fields.pop().unwrap();
    assert(fields@ =~= old(fields)@.drop_last());
    assert(views(fields@) =~= views(old(fields)@).drop_last());
    last
}

impl KeyData {
    /// Makes the key that `algorithm`, `fields` and `tail` describe.
    fn build(algorithm: Algorithm, fields: Vec<Vec<u8>>, tail: Vec<u8>) -> (r: KeyData)
        requires
            algorithm.wf(),
            key_model(algorithm, fields, tail).wf(),
        ensures
            r@ == key_model(algorithm, fields, tail),
    {
        proof {
            lemma_known_ids();
        }
        let ghost all = views(fields@);
        let mut fields = fields;
        let key = match algorithm {
            Algorithm::Dsa => {
                let y = take_last(&mut fields);
                let g = take_last(&mut fields);
                let q = take_last(&mut fields);
                let p = take_last(&mut fields);
                assert(all =~= seq![p@, q@, g@, y@]);
                KeyData::Dsa(DsaPublicKey { p, q, g, y })
            },
            Algorithm::Ecdsa { curve } => {
                let point = take_last(&mut fields);
                assert(all =~= seq![curve_name(curve), point@]);
                KeyData::Ecdsa(EcdsaPublicKey { curve, point })
            },
            Algorithm::Ed25519 => {
                let bytes = take_last(&mut fields);
                assert(all =~= seq![bytes@]);
                KeyData::Ed25519(Ed25519PublicKey { bytes })
            },
            Algorithm::Rsa => {
                let n = take_last(&mut fields);
                let e = take_last(&mut fields);
                assert(all =~= seq![e@, n@]);
                KeyData::Rsa(RsaPublicKey { e, n })
            },
            Algorithm::SkEcdsaSha2NistP256 => {
                let application = take_last(&mut fields);
                let point = take_last(&mut fields);
                assert(all =~= seq![curve_name(EcdsaCurve::NistP256), point@, application@]);
                KeyData::SkEcdsaSha2NistP256(SkEcdsaSha2NistP256 { point, application })
            },
            Algorithm::SkEd25519 => {
                let application = take_last(&mut fields);
                let public_key = take_last(&mut fields);
                assert(all =~= seq![public_key@, application@]);
                KeyData::SkEd25519(SkEd25519 { public_key, application })
            },
            Algorithm::Other(name) => {
                assert(all =~= Seq::<Seq<u8>>::empty());
                KeyData::Other(OpaquePublicKey { algorithm: name, key: tail })
            },
        };
        assert(key@.tail =~= tail@);
        key
    }

    /// Makes a key of `algorithm` from the fields of its material, in the
    /// order of the blob, and, for an algorithm that this library does not
    /// know, from the bytes that follow the identifier.
    pub fn new(algorithm: Algorithm, fields: Vec<Vec<u8>>, tail: Vec<u8>) -> (r: Result<
        KeyData,
        Error,
    >)
        ensures
            r is Ok <==> algorithm.wf() && key_model(algorithm, fields, tail).wf(),
            r matches Ok(k) ==> k@ == key_model(algorithm, fields, tail),
            r matches Err(e) ==> e == if algorithm.wf() {
                Error::FormatEncoding
            } else {
                Error::AlgorithmUnknown
            },
    {
        proof {
            lemma_known_ids();
        }
        if let Algorithm::Other(name) = &algorithm {
            match Algorithm::from_id(name.as_str().as_bytes()) {
                Ok(Algorithm::Other(_)) => {},
                _ => {
                    return Err(Error::AlgorithmUnknown);
                },
            }
            if fields.len() != 0 {
                return Err(Error::FormatEncoding);
            }
        } else {
            if fields.len() != count_fields(&algorithm) || tail.len() != 0 {
                return Err(Error::FormatEncoding);
            }
            if !check_fields(&algorithm, &fields) {
                return Err(Error::FormatEncoding);
            }
        }
        Ok(Self::build(algorithm, fields, tail))
    }

    /// Reads a key from the front of `bytes`: the key and the number of bytes
    /// it occupies.
    pub fn decode(bytes: &[u8]) -> (r: Result<(KeyData, usize), Error>)
        ensures
            match decode_key(bytes@) {
                Ok((k, used)) => r matches Ok((key, n)) && key@ == k && n == used,
                Err(e) => r matches Err(x) && x == e,
            },
    {
        proof {
            lemma_known_ids();
            lemma_parse_string_bounds(bytes@);
        }
        let (id, used) = match read_string(bytes) {
            Some(x) => x,
            None => {
                return Err(Error::FormatEncoding);
            },
        };
        let algorithm = match Algorithm::from_id(id.as_slice()) {
            Ok(a) => a,
            Err(_) => {
                return Err(Error::AlgorithmUnknown);
            },
        };
        let rest = slice_subrange(bytes, used, bytes.len());
        assert(rest@ == bytes@.skip(used as int));
        if let Algorithm::Other(_) = &algorithm {
            let tail = slice_to_vec(rest);
            let fields: Vec<Vec<u8>> = Vec::new();
            assert(views(fields@) =~= Seq::<Seq<u8>>::empty());
            return Ok((Self::build(algorithm, fields, tail), bytes.len()));
        }
        let (fields, more) = match read_strings(rest, count_fields(&algorithm)) {
            Some(x) => x,
            None => {
                return Err(Error::FormatEncoding);
            },
        };
        proof {
            lemma_parse_strings_bounds(rest@, field_count(algorithm.id()));
        }
        if !check_fields(&algorithm, &fields) {
            return Err(Error::FormatEncoding);
        }
        let tail: Vec<u8> = Vec::new();
        assert(tail@ =~= Seq::<u8>::empty());
        Ok((Self::build(algorithm, fields, tail), used + more))
    }

    /// Nothing but a key can be held: the material has the form that the
    /// algorithm asks for.
    fn is_well_formed(&self)
        ensures
            self@.wf(),
    {
        proof {
            lemma_known_ids();
            lemma_curve_names();
        }
        match self {
            KeyData::Dsa(k) => {
                proof {
                    use_type_invariant(k);
                }
            },
            KeyData::Ecdsa(k) => {
                proof {
                    use_type_invariant(k);
                }
            },
            KeyData::Ed25519(k) => {
                proof {
                    use_type_invariant(k);
                }
            },
            KeyData::Rsa(k) => {
                proof {
                    use_type_invariant(k);
                }
            },
            KeyData::SkEcdsaSha2NistP256(k) => {
                proof {
                    use_type_invariant(k);
                }
            },
            KeyData::SkEd25519(k) => {
                proof {
                    use_type_invariant(k);
                }
            },
            KeyData::Other(k) => {
                proof {
                    use_type_invariant(k);
                }
            },
        }
    }

    /// The identifier of the algorithm of this key, as text.
    pub fn algorithm_id(&self) -> (r: &str)
        ensures
            encode_utf8(r@) == self@.algorithm,
    {
        match self {
            KeyData::Dsa(_) => "ssh-dss",
            KeyData::Ecdsa(k) => match k.curve {
                EcdsaCurve::NistP256 => "ecdsa-sha2-nistp256",
                EcdsaCurve::NistP384 => "ecdsa-sha2-nistp384",
                EcdsaCurve::NistP521 => "ecdsa-sha2-nistp521",
            },
            KeyData::Ed25519(_) => "ssh-ed25519",
            KeyData::Rsa(_) => "ssh-rsa",
            KeyData::SkEcdsaSha2NistP256(_) => "sk-ecdsa-sha2-nistp256@openssh.com",
            KeyData::SkEd25519(_) => "sk-ssh-ed25519@openssh.com",
            KeyData::Other(k) => k.algorithm.as_str(),
        }
    }

    /// The algorithm of this key.
    pub fn algorithm(&self) -> (r: Algorithm)
        ensures
            self@.wf(),
            r.id() == self@.algorithm,
            r.wf(),
    {
        self.is_well_formed();
        match self {
            KeyData::Dsa(_) => Algorithm::Dsa,
            KeyData::Ecdsa(k) => Algorithm::Ecdsa { curve: k.curve },
            KeyData::Ed25519(_) => Algorithm::Ed25519,
            KeyData::Rsa(_) => Algorithm::Rsa,
            KeyData::SkEcdsaSha2NistP256(_) => Algorithm::SkEcdsaSha2NistP256,
            KeyData::SkEd25519(_) => Algorithm::SkEd25519,
            KeyData::Other(k) => {
                proof {
                    use_type_invariant(k);
                }
                Algorithm::Other(k.algorithm.clone())
            },
        }
    }

    /// The number of fields in the material of this key.
    pub fn field_count(&self) -> (r: usize)
        ensures
            r == self@.fields.len(),
            r <= 4,
    {
        match self {
            KeyData::Dsa(_) => 4,
            KeyData::Ecdsa(_) => 2,
            KeyData::Ed25519(_) => 1,
            KeyData::Rsa(_) => 2,
            KeyData::SkEcdsaSha2NistP256(_) => 3,
            KeyData::SkEd25519(_) => 2,
            KeyData::Other(_) => 0,
        }
    }

    /// The field of the material that stands at `index` in the blob.
    pub fn field(&self, index: usize) -> (r: &[u8])
        requires
            index < self@.fields.len(),
        ensures
            r@ == self@.fields[index as int],
    {
        match self {
            KeyData::Dsa(k) => if index == 0 {
                k.p.as_slice()
            } else if index == 1 {
                k.q.as_slice()
            } else if index == 2 {
                k.g.as_slice()
            } else {
                k.y.as_slice()
            },
            KeyData::Ecdsa(k) => if index == 0 {
                curve_name_str(k.curve).as_bytes()
            } else {
                k.point.as_slice()
            },
            KeyData::Ed25519(k) => k.bytes.as_slice(),
            KeyData::Rsa(k) => if index == 0 {
                k.e.as_slice()
            } else {
                k.n.as_slice()
            },
            KeyData::SkEcdsaSha2NistP256(k) => if index == 0 {
                curve_name_str(EcdsaCurve::NistP256).as_bytes()
            } else if index == 1 {
                k.point.as_slice()
            } else {
                k.application.as_slice()
            },
            KeyData::SkEd25519(k) => if index == 0 {
                k.public_key.as_slice()
            } else {
                k.application.as_slice()
            },
            KeyData::Other(k) => k.key.as_slice(),
        }
    }

    /// The fields of the material, in the order of the blob.
    pub fn fields(&self) -> (r: Vec<Vec<u8>>)
        ensures
            views(r@) == self@.fields,
    {
        let mut fields: Vec<Vec<u8>> = Vec::new();
        let n = self.field_count();
        let mut i: usize = 0;
        while i < n
            invariant
                n == self@.fields.len(),
                i <= n,
                fields@.len() == i,
                forall|j: int| 0 <= j < i ==> fields@[j]@ == self@.fields[j],
            decreases n - i,
        {
            fields.push(slice_to_vec(self.field(i)));
            i += 1;
        }
        assert(views(fields@) =~= self@.fields);
        fields
    }

    /// The bytes of the material that are not split into fields: empty for a
    /// known algorithm.
    pub fn tail(&self) -> (r: &[u8])
        ensures
            r@ == self@.tail,
    {
        match self {
            KeyData::Other(k) => k.key.as_slice(),
            _ => {
                let empty: &[u8] = &[];
                assert(empty@ =~= Seq::<u8>::empty());
                empty
            },
        }
    }

    /// Appends the binary blob of this key to `out`.
    pub fn encode(&self, out: &mut Vec<u8>)
        ensures
            self@.wf(),
            final(out)@ == old(out)@ + self@.encoding(),
    {
        self.is_well_formed();
        proof {
            lemma_wf_lengths(self@);
        }
        write_string(out, self.algorithm_id().as_bytes());
        let n = self.field_count();
        let mut i: usize = 0;
        assert(self@.fields.take(0) =~= Seq::<Seq<u8>>::empty());
        assert(out@ =~= old(out)@ + string(self@.algorithm) + strings(self@.fields.take(0)));
        while i < n
            invariant
                n == self@.fields.len(),
                i <= n,
                forall|j: int|
                    0 <= j < self@.fields.len() ==> (#[trigger] self@.fields[j]).len()
                        <= MAX_FIELD_LEN,
                out@ == old(out)@ + string(self@.algorithm) + strings(self@.fields.take(i as int)),
            decreases n - i,
        {
            proof {
                let done = self@.fields.take(i as int);
                lemma_strings_push(done, self@.fields[i as int]);
                assert(done.push(self@.fields[i as int]) =~= self@.fields.take(i + 1));
            }
            write_string(out, self.field(i));
            i += 1;
        }
        assert(self@.fields.take(n as int) =~= self@.fields);
        let tail = self.tail();
        let ghost start = out@;
        let mut j: usize = 0;
        while j < tail.len()
            invariant
                j <= tail@.len(),
                out@ == start + tail@.take(j as int),
            decreases tail@.len() - j,
        {
            out.push(tail[j]);
            assert(tail@.take(j as int).push(tail@[j as int]) =~= tail@.take(j + 1));
            j += 1;
        }
        assert(tail@.take(tail@.len() as int) =~= tail@);
        assert(out@ =~= old(out)@ + self@.encoding());
    }

    /// The DSA key, where this is one.
    pub fn dsa(&self) -> (r: Option<&DsaPublicKey>)
        ensures
            r matches Some(k) ==> k@ == self@,
            r is Some <==> self is Dsa,
    {
        match self {
            KeyData::Dsa(k) => Some(k),
            _ => None,
        }
    }

    /// The ECDSA key, where this is one.
    pub fn ecdsa(&self) -> (r: Option<&EcdsaPublicKey>)
        ensures
            r matches Some(k) ==> k@ == self@,
            r is Some <==> self is Ecdsa,
    {
        match self {
            KeyData::Ecdsa(k) => Some(k),
            _ => None,
        }
    }

    /// The Ed25519 key, where this is one.
    pub fn ed25519(&self) -> (r: Option<&Ed25519PublicKey>)
        ensures
            r matches Some(k) ==> k@ == self@,
            r is Some <==> self is Ed25519,
    {
        match self {
            KeyData::Ed25519(k) => Some(k),
            _ => None,
        }
    }

    /// The RSA key, where this is one.
    pub fn rsa(&self) -> (r: Option<&RsaPublicKey>)
        ensures
            r matches Some(k) ==> k@ == self@,
            r is Some <==> self is Rsa,
    {
        match self {
            KeyData::Rsa(k) => Some(k),
            _ => None,
        }
    }

    /// The security-key ECDSA key, where this is one.
    pub fn sk_ecdsa_p256(&self) -> (r: Option<&SkEcdsaSha2NistP256>)
        ensures
            r matches Some(k) ==> k@ == self@,
            r is Some <==> self is SkEcdsaSha2NistP256,
    {
        match self {
            KeyData::SkEcdsaSha2NistP256(k) => Some(k),
            _ => None,
        }
    }

    /// The security-key Ed25519 key, where this is one.
    pub fn sk_ed25519(&self) -> (r: Option<&SkEd25519>)
        ensures
            r matches Some(k) ==> k@ == self@,
            r is Some <==> self is SkEd25519,
    {
        match self {
            KeyData::SkEd25519(k) => Some(k),
            _ => None,
        }
    }

    /// The key of an algorithm that this library does not know, where this
    /// is one.
    pub fn other(&self) -> (r: Option<&OpaquePublicKey>)
        ensures
            r matches Some(k) ==> k@ == self@,
            r is Some <==> self is Other,
    {
        match self {
            KeyData::Other(k) => Some(k),
            _ => None,
        }
    }
}

impl Clone for KeyData {
    fn clone(&self) -> (r: KeyData)
        ensures
            r@ == self@,
    {
        match self {
            KeyData::Dsa(k) => KeyData::Dsa(k.clone()),
            KeyData::Ecdsa(k) => KeyData::Ecdsa(k.clone()),
            KeyData::Ed25519(k) => KeyData::Ed25519(k.clone()),
            KeyData::Rsa(k) => KeyData::Rsa(k.clone()),
            KeyData::SkEcdsaSha2NistP256(k) => KeyData::SkEcdsaSha2NistP256(k.clone()),
            KeyData::SkEd25519(k) => KeyData::SkEd25519(k.clone()),
            KeyData::Other(k) => KeyData::Other(k.clone()),
        }
    }
}

impl PartialEq for KeyData {
    fn eq(&self, other: &KeyData) -> (r: bool) {
        if !bytes_eq(self.algorithm_id().as_bytes(), other.algorithm_id().as_bytes()) {
            return false;
        }
        let n = self.field_count();
        if n != other.field_count() {
            assert(self@.fields.len() != other@.fields.len());
            return false;
        }
        let mut i: usize = 0;
        while i < n
            invariant
                n == self@.fields.len(),
                n == other@.fields.len(),
                i <= n,
                forall|j: int| 0 <= j < i ==> self@.fields[j] == other@.fields[j],
            decreases n - i,
        {
            if !bytes_eq(self.field(i), other.field(i)) {
                return false;
            }
            i += 1;
        }
        assert(self@.fields =~= other@.fields);
        bytes_eq(self.tail(), other.tail())
    }
}

impl vstd::std_specs::cmp::PartialEqSpecImpl for KeyData {
    open spec fn obeys_eq_spec() -> bool {
        true
    }

    open spec fn eq_spec(&self, other: &KeyData) -> bool {
        self@ == other@
    }
}

impl From<DsaPublicKey> for KeyData {
    fn from(key: DsaPublicKey) -> (r: KeyData)
        ensures
            r == KeyData::Dsa(key),
    {
        KeyData::Dsa(key)
    }
}

impl vstd::std_specs::convert::FromSpecImpl<DsaPublicKey> for KeyData {
    open spec fn obeys_from_spec() -> bool {
        true
    }

    open spec fn from_spec(key: DsaPublicKey) -> KeyData {
        KeyData::Dsa(key)
    }
}

impl From<EcdsaPublicKey> for KeyData {
    fn from(key: EcdsaPublicKey) -> (r: KeyData)
        ensures
            r == KeyData::Ecdsa(key),
    {
        KeyData::Ecdsa(key)
    }
}

impl vstd::std_specs::convert::FromSpecImpl<EcdsaPublicKey> for KeyData {
    open spec fn obeys_from_spec() -> bool {
        true
    }

    open spec fn from_spec(key: EcdsaPublicKey) -> KeyData {
        KeyData::Ecdsa(key)
    }
}

impl From<Ed25519PublicKey> for KeyData {
    fn from(key: Ed25519PublicKey) -> (r: KeyData)
        ensures
            r == KeyData::Ed25519(key),
    {
        KeyData::Ed25519(key)
    }
}

impl vstd::std_specs::convert::FromSpecImpl<Ed25519PublicKey> for KeyData {
    open spec fn obeys_from_spec() -> bool {
        true
    }

    open spec fn from_spec(key: Ed25519PublicKey) -> KeyData {
        KeyData::Ed25519(key)
    }
}

impl From<RsaPublicKey> for KeyData {
    fn from(key: RsaPublicKey) -> (r: KeyData)
        ensures
            r == KeyData::Rsa(key),
    {
        KeyData::Rsa(key)
    }
}

impl vstd::std_specs::convert::FromSpecImpl<RsaPublicKey> for KeyData {
    open spec fn obeys_from_spec() -> bool {
        true
    }

    open spec fn from_spec(key: RsaPublicKey) -> KeyData {
        KeyData::Rsa(key)
    }
}

impl From<SkEcdsaSha2NistP256> for KeyData {
    fn from(key: SkEcdsaSha2NistP256) -> (r: KeyData)
        ensures
            r == KeyData::SkEcdsaSha2NistP256(key),
    {
        KeyData::SkEcdsaSha2NistP256(key)
    }
}

impl vstd::std_specs::convert::FromSpecImpl<SkEcdsaSha2NistP256> for KeyData {
    open spec fn obeys_from_spec() -> bool {
        true
    }

    open spec fn from_spec(key: SkEcdsaSha2NistP256) -> KeyData {
        KeyData::SkEcdsaSha2NistP256(key)
    }
}

impl From<SkEd25519> for KeyData {
    fn from(key: SkEd25519) -> (r: KeyData)
        ensures
            r == KeyData::SkEd25519(key),
    {
        KeyData::SkEd25519(key)
    }
}

impl vstd::std_specs::convert::FromSpecImpl<SkEd25519> for KeyData {
    open spec fn obeys_from_spec() -> bool {
        true
    }

    open spec fn from_spec(key: SkEd25519) -> KeyData {
        KeyData::SkEd25519(key)
    }
}

impl From<OpaquePublicKey> for KeyData {
    fn from(key: OpaquePublicKey) -> (r: KeyData)
        ensures
            r == KeyData::Other(key),
    {
        KeyData::Other(key)
    }
}

impl vstd::std_specs::convert::FromSpecImpl<OpaquePublicKey> for KeyData {
    open spec fn obeys_from_spec() -> bool {
        true
    }

    open spec fn from_spec(key: OpaquePublicKey) -> KeyData {
        KeyData::Other(key)
    }
}

} // verus!
