//! Public keys: key data with a comment, read from and written to the
//! OpenSSH text line and the binary blob, and the check of a signature
//! against key and namespace.

use crate::algorithm::{is_known_id, is_name_text, lemma_known_ids, Algorithm, HashAlg};
use crate::base64::{base64_data, base64_decode, base64_reads_back, base64_text};
use crate::comment::Comment;
use crate::error::Error;
use crate::fingerprint::{digest, Fingerprint};
use crate::key::{
    decode_key, lemma_decode_key_exact, lemma_key_round_trip, DsaPublicKey, EcdsaPublicKey, Ed25519PublicKey, KeyData,
    KeyModel, OpaquePublicKey, RsaPublicKey, SkEcdsaSha2NistP256, SkEd25519,
};
use crate::signature::SshSig;
use crate::ssh_format::{
    decode_line, has_no_space, lemma_line_round_trip, line_text, LineModel, SshFormat,
};
use crate::text::{bytes_eq, is_whitespace, lossy_text};
use crate::wire::parse_string;
use vstd::prelude::*;
use vstd::string::*;
use vstd::utf8::*;

verus! {

/// A public key as a mathematical value.
pub struct PublicKeyModel {
    /// The key data.
    pub key: KeyModel,
    /// The comment.
    pub comment: Seq<u8>,
}

/// The public key that the fields of a line describe, `blob` being what the
/// Base64 text stands for: the key of `blob`, which must be of the algorithm
/// that the line names and must fill `blob`, with the comment.
pub open spec fn key_from_parts(algorithm_id: Seq<u8>, blob: Seq<u8>, comment: Seq<u8>) -> Result<
    PublicKeyModel,
    Error,
> {
    match decode_key(blob) {
        Err(e) => Err(e),
        Ok((key, used)) => if algorithm_id != key.algorithm {
            Err(Error::AlgorithmUnknown)
        } else if used != blob.len() {
            Err(Error::FormatEncoding)
        } else {
            Ok(PublicKeyModel { key, comment })
        },
    }
}

/// The public key that the text line `text` describes.
pub open spec fn parse_openssh(text: Seq<char>) -> Result<PublicKeyModel, Error> {
    match decode_line(text) {
        None => Err(Error::FormatEncoding),
        Some(line) => match base64_data(line.base64_data) {
            None => Err(Error::FormatEncoding),
            Some(blob) => key_from_parts(line.algorithm_id, blob, line.comment),
        },
    }
}

/// The public key that the binary blob `bytes` describes: it has no comment.
pub open spec fn parse_bytes(bytes: Seq<u8>) -> Result<PublicKeyModel, Error> {
    match decode_key(bytes) {
        Err(e) => Err(e),
        Ok((key, used)) => if used != bytes.len() {
            Err(Error::FormatEncoding)
        } else {
            Ok(PublicKeyModel { key, comment: Seq::empty() })
        },
    }
}

/// A public key as a serialization framework carries it.
#[derive(Debug, PartialEq, Eq)]
pub enum Serialized {
    /// For formats that people read: the OpenSSH text line.
    Text(String),
    /// For binary formats: the binary blob.
    Binary(Vec<u8>),
}

/// A serialized public key as a mathematical value.
pub enum SerializedModel {
    /// The OpenSSH text line.
    Text(Seq<char>),
    /// The binary blob.
    Binary(Seq<u8>),
}

impl View for Serialized {
    type V = SerializedModel;

    open spec fn view(&self) -> SerializedModel {
        match self {
            Serialized::Text(line) => SerializedModel::Text(line@),
            Serialized::Binary(blob) => SerializedModel::Binary(blob@),
        }
    }
}

impl Clone for Serialized {
    fn clone(&self) -> (r: Serialized)
        ensures
            r@ == self@,
    {
        match self {
            Serialized::Text(line) => Serialized::Text(line.clone()),
            Serialized::Binary(blob) => Serialized::Binary(
                vstd::slice::slice_to_vec(blob.as_slice()),
            ),
        }
    }
}

/// The public key that `value` carries.
pub open spec fn deserialized(value: SerializedModel) -> Result<PublicKeyModel, Error> {
    match value {
        SerializedModel::Text(line) => parse_openssh(line),
        SerializedModel::Binary(blob) => parse_bytes(blob),
    }
}

/// Whether text can stand at the end of a line: it is empty or does not end
/// in whitespace.
pub open spec fn keeps_its_end(text: Seq<char>) -> bool {
    text.len() > 0 ==> !is_whitespace(text.last())
}

impl PublicKeyModel {
    /// The text line of this key: the comment stands in it as text, with
    /// U+FFFD for what is not UTF-8.
    pub open spec fn openssh_text(self) -> Seq<char> {
        line_text(
            decode_utf8(self.key.algorithm),
            base64_text(self.key.encoding()),
            lossy_text(self.comment),
        )
    }

    /// This key with the comment that its text line shows.
    pub open spec fn with_shown_comment(self) -> PublicKeyModel {
        PublicKeyModel { key: self.key, comment: encode_utf8(lossy_text(self.comment)) }
    }

    /// The fingerprint of this key under `algorithm`: the digest of its blob.
    pub open spec fn fingerprint(self, algorithm: HashAlg) -> Seq<u8> {
        digest(algorithm, self.key.encoding())
    }

    /// This key as a serialization framework carries it: as its text line
    /// for a format that people read, as its blob for a binary format.
    pub open spec fn serialized(self, human_readable: bool) -> SerializedModel {
        if human_readable {
            SerializedModel::Text(self.openssh_text())
        } else {
            SerializedModel::Binary(self.key.encoding())
        }
    }

    /// This key without its comment.
    pub open spec fn without_comment(self) -> PublicKeyModel {
        PublicKeyModel { key: self.key, comment: Seq::empty() }
    }
}

/// An SSH public key: key data and a comment.
#[derive(Debug, Eq, PartialOrd, Ord, Hash)]
pub struct PublicKey {
    key_data: KeyData,
    comment: Comment,
}

impl View for PublicKey {
    type V = PublicKeyModel;

    closed spec fn view(&self) -> PublicKeyModel {
        PublicKeyModel { key: self.key_data@, comment: self.comment@ }
    }
}

/// The identifier of a key holds no space and is not empty.
pub proof fn lemma_identifier_has_no_space(k: KeyModel)
    requires
        k.wf(),
    ensures
        k.algorithm.len() > 0,
        has_no_space(k.algorithm),
        is_name_text(k.algorithm),
{
    lemma_known_ids();
    assert(is_name_text(k.algorithm));
    assert forall|i: int| 0 <= i < k.algorithm.len() implies #[trigger] k.algorithm[i]
        != crate::ssh_format::SPACE by {
        assert(crate::algorithm::is_name_byte(k.algorithm[i]));
    }
}

/// The fields of the text line of a key, once the line is split, give the key
/// with the comment that the line shows.
pub proof fn lemma_parts_give_key(m: PublicKeyModel)
    requires
        m.key.wf(),
    ensures
        key_from_parts(m.key.algorithm, m.key.encoding(), encode_utf8(lossy_text(m.comment)))
            == Ok::<PublicKeyModel, Error>(m.with_shown_comment()),
{
    lemma_key_round_trip(m.key, Seq::empty());
    assert(m.key.encoding() + Seq::<u8>::empty() =~= m.key.encoding());
}

/// The text line of a key is read back as the key with the comment that the
/// line shows: where the comment as shown does not end in whitespace, and
/// where the Base64 text of the blob is read back as the blob, which holds
/// of every line that [`PublicKey::to_openssh`] writes.
pub proof fn lemma_text_round_trip(m: PublicKeyModel)
    requires
        m.key.wf(),
        keeps_its_end(lossy_text(m.comment)),
        base64_reads_back(m.key.encoding()),
    ensures
        parse_openssh(m.openssh_text()) == Ok::<PublicKeyModel, Error>(m.with_shown_comment()),
{
    let id = decode_utf8(m.key.algorithm);
    let blob = m.key.encoding();
    let comment = lossy_text(m.comment);
    let base64 = base64_text(blob);
    lemma_identifier_has_no_space(m.key);
    assert(encode_utf8(id) == m.key.algorithm) by {
        crate::algorithm::lemma_name_text_is_utf8(m.key.algorithm);
    }
    assert(id.len() > 0) by {
        if id.len() == 0 {
            assert(encode_utf8(id) =~= Seq::<u8>::empty());
        }
    }
    let line = LineModel {
        algorithm_id: m.key.algorithm,
        base64_data: encode_utf8(base64),
        comment: encode_utf8(comment),
    };
    assert(decode_line(m.openssh_text()) == Some(line)) by {
        lemma_line_round_trip(id, base64, comment);
    }
    assert(base64_data(line.base64_data) == Some(blob));
    lemma_parts_give_key(m);
}

/// The blob of a key is read back as that key, without a comment.
pub proof fn lemma_binary_round_trip(k: KeyModel)
    requires
        k.wf(),
    ensures
        parse_bytes(k.encoding()) == Ok::<PublicKeyModel, Error>(
            PublicKeyModel { key: k, comment: Seq::empty() },
        ),
{
    lemma_key_round_trip(k, Seq::empty());
    assert(k.encoding() + Seq::<u8>::empty() =~= k.encoding());
}

/// A blob that is read is the blob of the key that was read from it: no two
/// blobs give the same key.
pub proof fn lemma_blob_is_exact(bytes: Seq<u8>)
    ensures
        parse_bytes(bytes) matches Ok(m) ==> m.key.wf() && m.key.encoding() == bytes
            && m.comment.len() == 0,
{
    lemma_decode_key_exact(bytes);
    assert(bytes.subrange(0, bytes.len() as int) =~= bytes);
}

/// Bytes after the blob of a key of a known algorithm make the whole
/// unreadable. (A key of another algorithm takes all that follows its
/// identifier as its material.)
pub proof fn lemma_trailing_bytes_rejected(k: KeyModel, extra: Seq<u8>)
    requires
        k.wf(),
        is_known_id(k.algorithm),
        extra.len() > 0,
    ensures
        parse_bytes(k.encoding() + extra) == Err::<PublicKeyModel, Error>(Error::FormatEncoding),
        forall|algorithm_id: Seq<u8>, comment: Seq<u8>|
            algorithm_id == k.algorithm ==> #[trigger] key_from_parts(
                algorithm_id,
                k.encoding() + extra,
                comment,
            ) == Err::<PublicKeyModel, Error>(Error::FormatEncoding),
{
    lemma_key_round_trip(k, extra);
}

/// A line that names another algorithm than the key in its blob is refused,
/// whatever else it holds.
pub proof fn lemma_other_identifier_rejected(
    algorithm_id: Seq<u8>,
    k: KeyModel,
    extra: Seq<u8>,
    comment: Seq<u8>,
)
    requires
        k.wf(),
        is_known_id(k.algorithm) || extra.len() == 0,
        algorithm_id != k.algorithm,
    ensures
        key_from_parts(algorithm_id, k.encoding() + extra, comment) == Err::<
            PublicKeyModel,
            Error,
        >(Error::AlgorithmUnknown),
{
    lemma_key_round_trip(k, extra);
}

/// Two keys with the same key data have the same fingerprint, whatever
/// their comments.
pub proof fn lemma_fingerprint_ignores_comment(
    a: PublicKeyModel,
    b: PublicKeyModel,
    algorithm: HashAlg,
)
    requires
        a.key == b.key,
    ensures
        a.fingerprint(algorithm) == b.fingerprint(algorithm),
{
}

/// A key that goes through a binary format comes back without its comment.
pub proof fn lemma_binary_form_drops_comment(m: PublicKeyModel)
    requires
        m.key.wf(),
    ensures
        deserialized(m.serialized(false)) == Ok::<PublicKeyModel, Error>(m.without_comment()),
{
    lemma_binary_round_trip(m.key);
}

impl PublicKey {
    /// The comment of this key, as the value that holds it.
    pub closed spec fn comment_value(&self) -> Comment {
        self.comment
    }

    /// The public key with this key data and the comment that `comment` is
    /// converted to.
    pub fn new<C: Into<Comment>>(key_data: KeyData, comment: C) -> (r: PublicKey)
        ensures
            call_ensures(C::into, (comment,), r.comment_value()),
            r@ == (PublicKeyModel { key: key_data@, comment: r.comment_value()@ }),
    {
        PublicKey { key_data, comment: comment.into() }
    }

    /// The public key that the fields of a text line describe, `blob` being
    /// the bytes that the Base64 text of the line stands for.
    ///
    /// The key is read from `blob`; then the identifier of the line must be
    /// the one inside `blob`, and the key must fill `blob`.
    pub fn from_parts(algorithm_id: &[u8], blob: &[u8], comment: &[u8]) -> (r: Result<
        PublicKey,
        Error,
    >)
        ensures
            match key_from_parts(algorithm_id@, blob@, comment@) {
                Ok(k) => r matches Ok(key) && key@ == k,
                Err(e) => r matches Err(x) && x == e,
            },
    {
        let (key_data, used) = KeyData::decode(blob)?;
        if !bytes_eq(algorithm_id, key_data.algorithm_id().as_bytes()) {
            return Err(Error::AlgorithmUnknown);
        }
        if used != blob.len() {
            return Err(Error::FormatEncoding);
        }
        Ok(PublicKey { key_data, comment: Comment::from(comment) })
    }

    /// Reads a public key from its OpenSSH text line:
    ///
    /// ```text
    /// ssh-ed25519 AAAAC3NzaC1lZDI1NTE5AAAAILM+rvN+ot98qgEN796jTiQfZfG1KaT0PtFDJ/XFSqti user@example.com
    /// ```
    pub fn from_openssh(public_key: &str) -> (r: Result<PublicKey, Error>)
        ensures
            match parse_openssh(public_key@) {
                Ok(k) => r matches Ok(key) && key@ == k,
                Err(e) => r matches Err(x) && x == e,
            },
    {
        let line = SshFormat::decode(public_key)?;
        match base64_decode(line.base64_data) {
            Some(blob) => Self::from_parts(line.algorithm_id, blob.as_slice(), line.comment),
            None => Err(Error::FormatEncoding),
        }
    }

    /// Reads a public key from its binary blob. The key has no comment, and
    /// `bytes` is its blob.
    pub fn from_bytes(bytes: &[u8]) -> (r: Result<PublicKey, Error>)
        ensures
            match parse_bytes(bytes@) {
                Ok(k) => r matches Ok(key) && key@ == k,
                Err(e) => r matches Err(x) && x == e,
            },
            r matches Ok(key) ==> key@.key.encoding() == bytes@ && key@.comment.len() == 0,
    {
        proof {
            lemma_blob_is_exact(bytes@);
        }
        let (key_data, used) = KeyData::decode(bytes)?;
        if used != bytes.len() {
            return Err(Error::FormatEncoding);
        }
        Ok(PublicKey { key_data, comment: Comment::default() })
    }

    /// Writes the OpenSSH text line of this key.
    ///
    /// The line is read back as this key wherever the comment is UTF-8 text
    /// that does not end in whitespace. Another comment is shown with U+FFFD
    /// for what is not UTF-8, and is read back as it is shown.
    pub fn to_openssh(&self) -> (r: Result<String, Error>)
        ensures
            self@.key.wf(),
            r is Ok <==> self@.key.encoding().len() <= usize::MAX / 4,
            r matches Ok(line) ==> line@ == self@.openssh_text(),
            r matches Ok(line) ==> (keeps_its_end(lossy_text(self@.comment)) ==> parse_openssh(
                line@,
            ) == Ok::<PublicKeyModel, Error>(self@.with_shown_comment())),
            r matches Ok(line) ==> (valid_utf8(self@.comment) ==> self@.with_shown_comment()
                == self@),
            r matches Err(e) ==> e == Error::Length,
    {
        let comment = self.comment.as_str_lossy();
        let name = self.key_data.algorithm_id();
        let r = SshFormat::encode_string(name, &self.key_data, comment.as_str());
        proof {
            encode_utf8_decode_utf8(name@);
            if r is Ok && keeps_its_end(lossy_text(self@.comment)) {
                lemma_text_round_trip(self@);
            }
            if valid_utf8(self@.comment) {
                decode_utf8_encode_utf8(self@.comment);
            }
        }
        r
    }

    /// Writes the OpenSSH text line of this key to the front of `out`, and
    /// returns it as it stands there. What follows it in `out` is left as it
    /// was.
    pub fn encode_openssh<'o>(&self, out: &'o mut [u8]) -> (r: Result<&'o str, Error>)
        ensures
            final(out)@.len() == old(out)@.len(),
            r is Ok <==> self@.key.encoding().len() <= usize::MAX / 4 && encode_utf8(
                self@.openssh_text(),
            ).len() <= old(out)@.len(),
            r matches Ok(line) ==> line@ == self@.openssh_text() && final(out)@ == encode_utf8(
                line@,
            ) + old(out)@.skip(encode_utf8(line@).len() as int),
            r matches Err(e) ==> e == Error::Length && final(out)@ == old(out)@,
    {
        let comment = self.comment.as_str_lossy();
        let name = self.key_data.algorithm_id();
        proof {
            encode_utf8_decode_utf8(name@);
        }
        SshFormat::encode(name, &self.key_data, comment.as_str(), out)
    }

    /// Appends the OpenSSH text line of this key and a line feed to `writer`.
    pub fn write_openssh(&self, writer: &mut Vec<u8>) -> (r: Result<(), Error>)
        ensures
            r is Ok <==> self@.key.encoding().len() <= usize::MAX / 4,
            r is Ok ==> final(writer)@ == old(writer)@ + encode_utf8(self@.openssh_text()) + seq![
                0x0au8,
            ],
            r matches Err(e) ==> e == Error::Length && final(writer)@ == old(writer)@,
    {
        let line = self.to_openssh()?;
        let bytes = line.as_str().as_bytes();
        let mut i: usize = 0;
        while i < bytes.len()
            invariant
                i <= bytes@.len(),
                writer@ == old(writer)@ + bytes@.take(i as int),
            decreases bytes@.len() - i,
        {
            writer.push(bytes[i]);
            assert(bytes@.take(i as int).push(bytes@[i as int]) =~= bytes@.take(i + 1));
            i += 1;
        }
        assert(bytes@.take(bytes@.len() as int) =~= bytes@);
        writer.push(0x0a);
        assert(writer@ =~= old(writer)@ + bytes@ + seq![0x0au8]);
        Ok(())
    }

    /// The binary blob of this key. The comment is not part of it.
    pub fn to_bytes(&self) -> (r: Result<Vec<u8>, Error>)
        ensures
            self@.key.wf(),
            r matches Ok(bytes) && bytes@ == self@.key.encoding(),
    {
        let mut bytes: Vec<u8> = Vec::new();
        self.key_data.encode(&mut bytes);
        assert(bytes@ =~= self@.key.encoding());
        Ok(bytes)
    }

    /// Checks `signature` over `msg` with this key, for use in `namespace`.
    ///
    /// The signature must have been made by this very key, and for this very
    /// namespace. Only then is `check` called, which is to verify the
    /// signature cryptographically; what it returns is returned.
    pub fn verify<F>(&self, namespace: &str, msg: &[u8], signature: &SshSig, check: F) -> (r:
        Result<(), Error>) where F: FnOnce(&SshSig, &[u8]) -> Result<(), Error>
        requires
            self@.key == signature@.public_key && namespace@ == signature@.namespace
                ==> call_requires(check, (signature, msg)),
        ensures
            self@.key != signature@.public_key ==> r == Err::<(), Error>(Error::PublicKey),
            self@.key == signature@.public_key && namespace@ != signature@.namespace ==> r == Err::<
                (),
                Error,
            >(Error::Namespace),
            self@.key == signature@.public_key && namespace@ == signature@.namespace
                ==> call_ensures(check, (signature, msg), r),
    {
        if !self.key_data.eq(signature.public_key()) {
            return Err(Error::PublicKey);
        }
        proof {
            encode_utf8_decode_utf8(namespace@);
            encode_utf8_decode_utf8(signature@.namespace);
        }
        if !bytes_eq(namespace.as_bytes(), signature.namespace().as_bytes()) {
            return Err(Error::Namespace);
        }
        check(signature, msg)
    }

    /// This key as a serialization framework is to carry it: for a format
    /// that people read (`human_readable`), the text line with the comment;
    /// for a binary format, the blob, which has no comment.
    pub fn serialize(&self, human_readable: bool) -> (r: Result<Serialized, Error>)
        ensures
            self@.key.wf(),
            r is Ok <==> !human_readable || self@.key.encoding().len() <= usize::MAX / 4,
            r matches Ok(value) ==> value@ == self@.serialized(human_readable),
            r matches Ok(value) ==> (human_readable && keeps_its_end(lossy_text(self@.comment))
                ==> deserialized(value@) == Ok::<PublicKeyModel, Error>(
                self@.with_shown_comment(),
            )),
            r matches Ok(value) ==> (!human_readable ==> deserialized(value@) == Ok::<
                PublicKeyModel,
                Error,
            >(self@.without_comment())),
            r matches Err(e) ==> e == Error::Length,
    {
        if human_readable {
            Ok(Serialized::Text(self.to_openssh()?))
        } else {
            let blob = self.to_bytes()?;
            proof {
                lemma_binary_form_drops_comment(self@);
            }
            Ok(Serialized::Binary(blob))
        }
    }

    /// The public key that `value` carries: read from the text line, or from
    /// the blob.
    pub fn deserialize(value: &Serialized) -> (r: Result<PublicKey, Error>)
        ensures
            match deserialized(value@) {
                Ok(k) => r matches Ok(key) && key@ == k,
                Err(e) => r matches Err(x) && x == e,
            },
    {
        match value {
            Serialized::Text(line) => Self::from_openssh(line.as_str()),
            Serialized::Binary(blob) => Self::from_bytes(blob.as_slice()),
        }
    }

    /// The algorithm of this key.
    pub fn algorithm(&self) -> (r: Algorithm)
        ensures
            r.id() == self@.key.algorithm,
            r.wf(),
    {
        self.key_data.algorithm()
    }

    /// The comment of this key.
    pub fn comment(&self) -> (r: &Comment)
        ensures
            r@ == self@.comment,
    {
        &self.comment
    }

    /// The key data of this key.
    pub fn key_data(&self) -> (r: &KeyData)
        ensures
            r@ == self@.key,
    {
        &self.key_data
    }

    /// The fingerprint of this key under `hash_alg`. The comment has no part
    /// in it.
    pub fn fingerprint(&self, hash_alg: HashAlg) -> (r: Fingerprint)
        ensures
            r.algorithm == hash_alg,
            r.digest@ == self@.fingerprint(hash_alg),
    {
        let mut bytes: Vec<u8> = Vec::new();
        self.key_data.encode(&mut bytes);
        assert(bytes@ =~= self@.key.encoding());
        Fingerprint::new(hash_alg, bytes.as_slice())
    }

    /// Replaces the comment of this key by the one that `comment` is
    /// converted to.
    pub fn set_comment<C: Into<Comment>>(&mut self, comment: C)
        ensures
            call_ensures(C::into, (comment,), final(self).comment_value()),
            final(self)@ == (PublicKeyModel {
                key: old(self)@.key,
                comment: final(self).comment_value()@,
            }),
    {
        self.comment = comment.into();
    }

    /// Reads the comment of this key from the front of `bytes`, where it
    /// stands as a `string`, and returns the number of bytes it occupies.
    /// Where none can be read, the key is left as it was.
    pub fn decode_comment(&mut self, bytes: &[u8]) -> (r: Result<usize, Error>)
        ensures
            match parse_string(bytes@) {
                Some((data, used)) => r matches Ok(n) && n == used && final(self)@ == (
                PublicKeyModel { key: old(self)@.key, comment: data }),
                None => r matches Err(e) && e == Error::FormatEncoding && final(self)@ == old(
                    self,
                )@,
            },
    {
        let (comment, used) = Comment::decode(bytes)?;
        self.comment = comment;
        Ok(used)
    }
}

impl Clone for PublicKey {
    fn clone(&self) -> (r: PublicKey)
        ensures
            r@ == self@,
    {
        PublicKey { key_data: self.key_data.clone(), comment: self.comment.clone() }
    }
}

impl PartialEq for PublicKey {
    fn eq(&self, other: &PublicKey) -> (r: bool) {
        self.key_data.eq(&other.key_data) && self.comment.eq(&other.comment)
    }
}

impl vstd::std_specs::cmp::PartialEqSpecImpl for PublicKey {
    open spec fn obeys_eq_spec() -> bool {
        true
    }

    open spec fn eq_spec(&self, other: &PublicKey) -> bool {
        self@ == other@
    }
}

impl From<KeyData> for PublicKey {
    fn from(key_data: KeyData) -> (r: PublicKey)
        ensures
            r@ == (PublicKeyModel { key: key_data@, comment: Seq::empty() }),
    {
        PublicKey::new(key_data, Comment::default())
    }
}

impl vstd::std_specs::convert::FromSpecImpl<KeyData> for PublicKey {
    open spec fn obeys_from_spec() -> bool {
        false
    }

    open spec fn from_spec(key_data: KeyData) -> PublicKey {
        arbitrary()
    }
}

impl From<PublicKey> for KeyData {
    fn from(public_key: PublicKey) -> (r: KeyData)
        ensures
            r@ == public_key@.key,
    {
        public_key.key_data
    }
}

impl vstd::std_specs::convert::FromSpecImpl<PublicKey> for KeyData {
    open spec fn obeys_from_spec() -> bool {
        false
    }

    open spec fn from_spec(public_key: PublicKey) -> KeyData {
        arbitrary()
    }
}

impl From<&PublicKey> for KeyData {
    fn from(public_key: &PublicKey) -> (r: KeyData)
        ensures
            r@ == public_key@.key,
    {
        public_key.key_data.clone()
    }
}

impl vstd::std_specs::convert::FromSpecImpl<&PublicKey> for KeyData {
    open spec fn obeys_from_spec() -> bool {
        false
    }

    open spec fn from_spec(public_key: &PublicKey) -> KeyData {
        arbitrary()
    }
}

impl From<DsaPublicKey> for PublicKey {
    fn from(public_key: DsaPublicKey) -> (r: PublicKey)
        ensures
            r@ == (PublicKeyModel { key: public_key@, comment: Seq::empty() }),
    {
        PublicKey { key_data: KeyData::from(public_key), comment: Comment::default() }
    }
}

impl vstd::std_specs::convert::FromSpecImpl<DsaPublicKey> for PublicKey {
    open spec fn obeys_from_spec() -> bool {
        false
    }

    open spec fn from_spec(public_key: DsaPublicKey) -> PublicKey {
        arbitrary()
    }
}

impl From<EcdsaPublicKey> for PublicKey {
    fn from(public_key: EcdsaPublicKey) -> (r: PublicKey)
        ensures
            r@ == (PublicKeyModel { key: public_key@, comment: Seq::empty() }),
    {
        PublicKey { key_data: KeyData::from(public_key), comment: Comment::default() }
    }
}

impl vstd::std_specs::convert::FromSpecImpl<EcdsaPublicKey> for PublicKey {
    open spec fn obeys_from_spec() -> bool {
        false
    }

    open spec fn from_spec(public_key: EcdsaPublicKey) -> PublicKey {
        arbitrary()
    }
}

impl From<Ed25519PublicKey> for PublicKey {
    fn from(public_key: Ed25519PublicKey) -> (r: PublicKey)
        ensures
            r@ == (PublicKeyModel { key: public_key@, comment: Seq::empty() }),
    {
        PublicKey { key_data: KeyData::from(public_key), comment: Comment::default() }
    }
}

impl vstd::std_specs::convert::FromSpecImpl<Ed25519PublicKey> for PublicKey {
    open spec fn obeys_from_spec() -> bool {
        false
    }

    open spec fn from_spec(public_key: Ed25519PublicKey) -> PublicKey {
        arbitrary()
    }
}

impl From<RsaPublicKey> for PublicKey {
    fn from(public_key: RsaPublicKey) -> (r: PublicKey)
        ensures
            r@ == (PublicKeyModel { key: public_key@, comment: Seq::empty() }),
    {
        PublicKey { key_data: KeyData::from(public_key), comment: Comment::default() }
    }
}

impl vstd::std_specs::convert::FromSpecImpl<RsaPublicKey> for PublicKey {
    open spec fn obeys_from_spec() -> bool {
        false
    }

    open spec fn from_spec(public_key: RsaPublicKey) -> PublicKey {
        arbitrary()
    }
}

impl From<SkEcdsaSha2NistP256> for PublicKey {
    fn from(public_key: SkEcdsaSha2NistP256) -> (r: PublicKey)
        ensures
            r@ == (PublicKeyModel { key: public_key@, comment: Seq::empty() }),
    {
        PublicKey { key_data: KeyData::from(public_key), comment: Comment::default() }
    }
}

impl vstd::std_specs::convert::FromSpecImpl<SkEcdsaSha2NistP256> for PublicKey {
    open spec fn obeys_from_spec() -> bool {
        false
    }

    open spec fn from_spec(public_key: SkEcdsaSha2NistP256) -> PublicKey {
        arbitrary()
    }
}

impl From<SkEd25519> for PublicKey {
    fn from(public_key: SkEd25519) -> (r: PublicKey)
        ensures
            r@ == (PublicKeyModel { key: public_key@, comment: Seq::empty() }),
    {
        PublicKey { key_data: KeyData::from(public_key), comment: Comment::default() }
    }
}

impl vstd::std_specs::convert::FromSpecImpl<SkEd25519> for PublicKey {
    open spec fn obeys_from_spec() -> bool {
        false
    }

    open spec fn from_spec(public_key: SkEd25519) -> PublicKey {
        arbitrary()
    }
}

impl From<OpaquePublicKey> for PublicKey {
    fn from(public_key: OpaquePublicKey) -> (r: PublicKey)
        ensures
            r@ == (PublicKeyModel { key: public_key@, comment: Seq::empty() }),
    {
        PublicKey { key_data: KeyData::from(public_key), comment: Comment::default() }
    }
}

impl vstd::std_specs::convert::FromSpecImpl<OpaquePublicKey> for PublicKey {
    open spec fn obeys_from_spec() -> bool {
        false
    }

    open spec fn from_spec(public_key: OpaquePublicKey) -> PublicKey {
        arbitrary()
    }
}

impl core::str::FromStr for PublicKey {
    type Err = Error;

    fn from_str(s: &str) -> (r: Result<PublicKey, Error>)
        ensures
            match parse_openssh(s@) {
                Ok(k) => r matches Ok(key) && key@ == k,
                Err(e) => r matches Err(x) && x == e,
            },
    {
        Self::from_openssh(s)
    }
}

} // verus!
