use ssh_key::wire::{read_string, read_strings, write_string, write_strings};
use ssh_key::{
    Algorithm, Comment, DsaPublicKey, EcdsaCurve, EcdsaPublicKey, Ed25519PublicKey, Error,
    HashAlg, KeyData, OpaquePublicKey, PublicKey, RsaPublicKey, SkEcdsaSha2NistP256, SkEd25519,
};

const ED25519_BLOB: [u8; 51] = [
    0x00, 0x00, 0x00, 0x0b, 0x73, 0x73, 0x68, 0x2d, 0x65, 0x64, 0x32, 0x35, 0x35, 0x31, 0x39, 0x00,
    0x00, 0x00, 0x20, 0xb3, 0x3e, 0xae, 0xf3, 0x7e, 0xa2, 0xdf, 0x7c, 0xaa, 0x01, 0x0d, 0xef, 0xde,
    0xa3, 0x4e, 0x24, 0x1f, 0x65, 0xf1, 0xb5, 0x29, 0xa4, 0xf4, 0x3e, 0xd1, 0x43, 0x27, 0xf5, 0xc5,
    0x4a, 0xab, 0x62,
];

const RSA_BLOB: [u8; 31] = [
    0x00, 0x00, 0x00, 0x07, 0x73, 0x73, 0x68, 0x2d, 0x72, 0x73, 0x61, 0x00, 0x00, 0x00, 0x03, 0x01,
    0x00, 0x01, 0x00, 0x00, 0x00, 0x09, 0x00, 0xc5, 0x17, 0x2a, 0x33, 0x44, 0x55, 0x66, 0x77,
];

fn string(data: &[u8]) -> Vec<u8> {
    let mut out = (data.len() as u32).to_be_bytes().to_vec();
    out.extend_from_slice(data);
    out
}

fn blob(algorithm: &str, fields: &[&[u8]]) -> Vec<u8> {
    let mut out = string(algorithm.as_bytes());
    for field in fields {
        out.extend_from_slice(&string(field));
    }
    out
}

fn point(len: usize) -> Vec<u8> {
    let mut p = vec![4u8];
    for i in 1..len {
        p.push((i % 251) as u8);
    }
    p
}

#[test]
fn reads_ed25519_blob() {
    let key = PublicKey::from_bytes(&ED25519_BLOB).unwrap();
    assert_eq!(key.algorithm(), Algorithm::Ed25519);
    assert!(key.comment().is_empty());
    assert_eq!(key.key_data().fields(), vec![ED25519_BLOB[19..].to_vec()]);
    assert_eq!(key.to_bytes().unwrap(), ED25519_BLOB.to_vec());
}

#[test]
fn reads_rsa_blob() {
    let key = PublicKey::from_bytes(&RSA_BLOB).unwrap();
    assert_eq!(key.algorithm(), Algorithm::Rsa);
    assert_eq!(
        key.key_data().fields(),
        vec![vec![1, 0, 1], vec![0, 0xc5, 0x17, 0x2a, 0x33, 0x44, 0x55, 0x66, 0x77]]
    );
    let rsa = key.key_data().rsa().unwrap();
    assert_eq!(rsa.e(), &[1, 0, 1]);
    assert_eq!(rsa.n(), &[0, 0xc5, 0x17, 0x2a, 0x33, 0x44, 0x55, 0x66, 0x77]);
    assert_eq!(key.to_bytes().unwrap(), RSA_BLOB.to_vec());
}

#[test]
fn blob_round_trip_drops_the_comment() {
    let key_data = KeyData::new(
        Algorithm::Rsa,
        vec![vec![1, 0, 1], vec![0, 0xc5, 0x17, 0x2a, 0x33, 0x44, 0x55, 0x66, 0x77]],
        vec![],
    )
    .unwrap();
    let key = PublicKey::new(key_data.clone(), Comment::from_text("label"));
    let bytes = key.to_bytes().unwrap();
    assert_eq!(bytes, RSA_BLOB.to_vec());
    let back = PublicKey::from_bytes(&bytes).unwrap();
    assert_eq!(*back.key_data(), key_data);
    assert!(back.comment().is_empty());
}

#[test]
fn bytes_after_the_key_are_refused() {
    let mut bytes = ED25519_BLOB.to_vec();
    bytes.push(0);
    assert_eq!(PublicKey::from_bytes(&bytes), Err(Error::FormatEncoding));
    let mut bytes = RSA_BLOB.to_vec();
    bytes.extend_from_slice(&[0, 0, 0, 0]);
    assert_eq!(PublicKey::from_bytes(&bytes), Err(Error::FormatEncoding));
}

#[test]
fn truncated_blobs_are_refused() {
    for n in 0..ED25519_BLOB.len() {
        assert_eq!(PublicKey::from_bytes(&ED25519_BLOB[..n]), Err(Error::FormatEncoding));
    }
}

#[test]
fn unknown_algorithm_without_a_domain_is_refused() {
    let bytes = blob("ssh-foo", &[&[1, 2, 3]]);
    assert_eq!(PublicKey::from_bytes(&bytes), Err(Error::AlgorithmUnknown));
    let bytes = blob("@example.com", &[]);
    assert_eq!(PublicKey::from_bytes(&bytes), Err(Error::AlgorithmUnknown));
    let bytes = blob("a@b@c", &[]);
    assert_eq!(PublicKey::from_bytes(&bytes), Err(Error::AlgorithmUnknown));
    let bytes = blob("foo bar@example.com", &[]);
    assert_eq!(PublicKey::from_bytes(&bytes), Err(Error::AlgorithmUnknown));
    let long = format!("{}@example.com", "a".repeat(53));
    assert_eq!(long.len(), 65);
    assert_eq!(PublicKey::from_bytes(&blob(&long, &[])), Err(Error::AlgorithmUnknown));
}

#[test]
fn unknown_algorithm_with_a_domain_is_kept() {
    let mut bytes = string(b"foo@example.com");
    bytes.extend_from_slice(&[1, 2, 3, 4, 5]);
    let key = PublicKey::from_bytes(&bytes).unwrap();
    assert_eq!(key.algorithm(), Algorithm::Other("foo@example.com".to_string()));
    assert_eq!(key.algorithm().as_str(), "foo@example.com");
    assert_eq!(key.key_data().tail(), &[1, 2, 3, 4, 5]);
    assert_eq!(key.to_bytes().unwrap(), bytes);
    let long = format!("{}@example.com", "a".repeat(52));
    assert_eq!(long.len(), 64);
    assert!(PublicKey::from_bytes(&blob(&long, &[])).is_ok());
}

#[test]
fn unknown_algorithm_takes_what_follows() {
    let mut bytes = string(b"foo@example.com");
    bytes.extend_from_slice(&[1, 2, 3]);
    let short = PublicKey::from_bytes(&bytes).unwrap();
    bytes.push(9);
    let long = PublicKey::from_bytes(&bytes).unwrap();
    assert_eq!(short.key_data().tail(), &[1, 2, 3]);
    assert_eq!(long.key_data().tail(), &[1, 2, 3, 9]);
    assert_ne!(short, long);
}

#[test]
fn ed25519_key_of_another_length_is_refused() {
    let bytes = blob("ssh-ed25519", &[&[7u8; 31]]);
    assert_eq!(PublicKey::from_bytes(&bytes), Err(Error::FormatEncoding));
    let bytes = blob("ssh-ed25519", &[&[7u8; 33]]);
    assert_eq!(PublicKey::from_bytes(&bytes), Err(Error::FormatEncoding));
    let bytes = blob("ssh-ed25519", &[&[7u8; 32]]);
    assert!(PublicKey::from_bytes(&bytes).is_ok());
}

#[test]
fn numbers_must_have_their_shortest_form() {
    let ok: [&[u8]; 5] = [&[], &[1], &[0x7f, 0xff], &[0, 0x80], &[0, 0xff, 0]];
    for n in ok {
        assert!(PublicKey::from_bytes(&blob("ssh-rsa", &[&[1, 0, 1], n])).is_ok());
    }
    let bad: [&[u8]; 4] = [&[0], &[0, 0x7f], &[0x80], &[0xff, 0x21]];
    for n in bad {
        assert_eq!(
            PublicKey::from_bytes(&blob("ssh-rsa", &[&[1, 0, 1], n])),
            Err(Error::FormatEncoding)
        );
        assert_eq!(
            PublicKey::from_bytes(&blob("ssh-rsa", &[n, &[1, 0, 1]])),
            Err(Error::FormatEncoding)
        );
    }
}

#[test]
fn reads_dsa_blob() {
    let bytes = blob("ssh-dss", &[&[0, 0x81], &[0x11], &[2], &[0x33, 0x44]]);
    let key = PublicKey::from_bytes(&bytes).unwrap();
    assert_eq!(key.algorithm(), Algorithm::Dsa);
    assert_eq!(key.algorithm().as_str(), "ssh-dss");
    assert_eq!(key.key_data().fields().len(), 4);
    assert_eq!(key.to_bytes().unwrap(), bytes);
    let bytes = blob("ssh-dss", &[&[0, 0x81], &[0x11], &[2]]);
    assert_eq!(PublicKey::from_bytes(&bytes), Err(Error::FormatEncoding));
}

#[test]
fn reads_ecdsa_blobs() {
    let cases = [
        (EcdsaCurve::NistP256, "ecdsa-sha2-nistp256", "nistp256", 65usize),
        (EcdsaCurve::NistP384, "ecdsa-sha2-nistp384", "nistp384", 97),
        (EcdsaCurve::NistP521, "ecdsa-sha2-nistp521", "nistp521", 133),
    ];
    for (curve, id, name, len) in cases {
        let bytes = blob(id, &[name.as_bytes(), &point(len)]);
        let key = PublicKey::from_bytes(&bytes).unwrap();
        assert_eq!(key.algorithm(), Algorithm::Ecdsa { curve });
        assert_eq!(key.algorithm().as_str(), id);
        assert_eq!(key.to_bytes().unwrap(), bytes);
        let bytes = blob(id, &[name.as_bytes(), &point(len - 1)]);
        assert_eq!(PublicKey::from_bytes(&bytes), Err(Error::FormatEncoding));
        let mut compressed = point(len);
        compressed[0] = 2;
        let bytes = blob(id, &[name.as_bytes(), &compressed]);
        assert_eq!(PublicKey::from_bytes(&bytes), Err(Error::FormatEncoding));
    }
}

#[test]
fn curve_must_be_the_one_of_the_algorithm() {
    let bytes = blob("ecdsa-sha2-nistp256", &[b"nistp384", &point(65)]);
    assert_eq!(PublicKey::from_bytes(&bytes), Err(Error::FormatEncoding));
    let bytes = blob("ecdsa-sha2-nistp256", &[b"nistp384", &point(97)]);
    assert_eq!(PublicKey::from_bytes(&bytes), Err(Error::FormatEncoding));
}

#[test]
fn reads_security_key_blobs() {
    let bytes = blob("sk-ssh-ed25519@openssh.com", &[&[9u8; 32], b"ssh:"]);
    let key = PublicKey::from_bytes(&bytes).unwrap();
    assert_eq!(key.algorithm(), Algorithm::SkEd25519);
    assert_eq!(key.algorithm().as_str(), "sk-ssh-ed25519@openssh.com");
    assert_eq!(key.key_data().fields()[1], b"ssh:".to_vec());
    assert_eq!(key.to_bytes().unwrap(), bytes);
    let bytes = blob("sk-ecdsa-sha2-nistp256@openssh.com", &[b"nistp256", &point(65), b"ssh:"]);
    let key = PublicKey::from_bytes(&bytes).unwrap();
    assert_eq!(key.algorithm(), Algorithm::SkEcdsaSha2NistP256);
    assert_eq!(key.algorithm().as_str(), "sk-ecdsa-sha2-nistp256@openssh.com");
    assert_eq!(key.to_bytes().unwrap(), bytes);
    let bytes = blob("sk-ecdsa-sha2-nistp256@openssh.com", &[b"nistp256", &point(65)]);
    assert_eq!(PublicKey::from_bytes(&bytes), Err(Error::FormatEncoding));
}

#[test]
fn key_data_is_checked_when_made() {
    assert!(KeyData::new(Algorithm::Ed25519, vec![vec![1u8; 32]], vec![]).is_ok());
    assert_eq!(
        KeyData::new(Algorithm::Ed25519, vec![vec![1u8; 31]], vec![]),
        Err(Error::FormatEncoding)
    );
    assert_eq!(
        KeyData::new(Algorithm::Ed25519, vec![vec![1u8; 32]], vec![0]),
        Err(Error::FormatEncoding)
    );
    assert_eq!(
        KeyData::new(Algorithm::Ed25519, vec![vec![1u8; 32], vec![]], vec![]),
        Err(Error::FormatEncoding)
    );
    assert_eq!(KeyData::new(Algorithm::Rsa, vec![], vec![]), Err(Error::FormatEncoding));
    assert_eq!(
        KeyData::new(Algorithm::Other("ssh-rsa".to_string()), vec![], vec![1]),
        Err(Error::AlgorithmUnknown)
    );
    assert_eq!(
        KeyData::new(Algorithm::Other("no-domain".to_string()), vec![], vec![1]),
        Err(Error::AlgorithmUnknown)
    );
    assert_eq!(
        KeyData::new(Algorithm::Other("a@b".to_string()), vec![vec![1]], vec![]),
        Err(Error::FormatEncoding)
    );
    let key = KeyData::new(Algorithm::Other("a@b".to_string()), vec![], vec![1, 2]).unwrap();
    assert_eq!(key.algorithm().as_str(), "a@b");
    assert_eq!(PublicKey::from(key).to_bytes().unwrap(), vec![0, 0, 0, 3, b'a', b'@', b'b', 1, 2]);
}

#[test]
fn algorithm_from_identifier() {
    assert_eq!(Algorithm::from_id(b"ssh-rsa"), Ok(Algorithm::Rsa));
    assert_eq!(Algorithm::from_id(b"ssh-dss"), Ok(Algorithm::Dsa));
    assert_eq!(Algorithm::from_id(b"ssh-ed25519"), Ok(Algorithm::Ed25519));
    assert_eq!(
        Algorithm::from_id(b"ecdsa-sha2-nistp384"),
        Ok(Algorithm::Ecdsa { curve: EcdsaCurve::NistP384 })
    );
    assert_eq!(Algorithm::from_id(b"x@y"), Ok(Algorithm::Other("x@y".to_string())));
    assert_eq!(Algorithm::from_id(b"ssh-rsa "), Err(Error::AlgorithmUnknown));
    assert_eq!(Algorithm::from_id(b""), Err(Error::AlgorithmUnknown));
    assert_eq!(Algorithm::from_id(b"x@"), Err(Error::AlgorithmUnknown));
    assert_eq!(Algorithm::from_id(&[b'x', b'@', 0xc3, 0xa9]), Err(Error::AlgorithmUnknown));
    assert!(Algorithm::Rsa.same_as(&Algorithm::Rsa));
    assert!(!Algorithm::Rsa.same_as(&Algorithm::Dsa));
    assert_eq!(Algorithm::Other("x@y".to_string()).clone(), Algorithm::Other("x@y".to_string()));
}

#[test]
fn strings_of_the_wire() {
    let mut out = vec![0xee];
    write_string(&mut out, b"testing");
    assert_eq!(out, vec![0xee, 0, 0, 0, 7, b't', b'e', b's', b't', b'i', b'n', b'g']);
    assert_eq!(read_string(&out[1..]), Some((b"testing".to_vec(), 11)));
    assert_eq!(read_string(&[0, 0, 0, 0]), Some((vec![], 4)));
    assert_eq!(read_string(&[0, 0, 0, 1, 5, 6]), Some((vec![5], 5)));
    assert_eq!(read_string(&[0, 0, 0]), None);
    assert_eq!(read_string(&[0, 0, 0, 2, 5]), None);
    let data = vec![0x5au8; 0x1_0203];
    let mut out = Vec::new();
    write_string(&mut out, &data);
    assert_eq!(&out[..4], &[0, 1, 2, 3]);
    assert_eq!(read_string(&out), Some((data, 0x1_0207)));
}

#[test]
fn longest_string_of_the_wire() {
    let mut bytes = vec![0x00, 0x0f, 0xff, 0xff];
    bytes.resize(4 + 0xf_ffff, 1);
    assert_eq!(read_string(&bytes).map(|r| r.1), Some(4 + 0xf_ffff));
    let mut bytes = vec![0x00, 0x10, 0x00, 0x00];
    bytes.resize(4 + 0x10_0000, 1);
    assert_eq!(read_string(&bytes), None);
    let mut bytes = vec![0x01, 0x00, 0x00, 0x00];
    bytes.resize(64, 1);
    assert_eq!(read_string(&bytes), None);
}

#[test]
fn several_strings_of_the_wire() {
    let fields = vec![b"ab".to_vec(), vec![], b"c".to_vec()];
    let mut out = Vec::new();
    write_strings(&mut out, &fields);
    assert_eq!(out, vec![0, 0, 0, 2, b'a', b'b', 0, 0, 0, 0, 0, 0, 0, 1, b'c']);
    out.push(0xff);
    assert_eq!(read_strings(&out, 3), Some((fields.clone(), 15)));
    assert_eq!(read_strings(&out, 2), Some((fields[..2].to_vec(), 10)));
    assert_eq!(read_strings(&out, 0), Some((vec![], 0)));
    assert_eq!(read_strings(&out, 4), None);
}

#[test]
fn comment_from_the_wire() {
    let mut key = PublicKey::from_bytes(&ED25519_BLOB).unwrap();
    let bytes = [0, 0, 0, 3, b'a', 0xff, 0x00, 9, 9];
    assert_eq!(key.decode_comment(&bytes), Ok(7));
    assert_eq!(key.comment().as_bytes(), &[b'a', 0xff, 0x00]);
    assert_eq!(key.decode_comment(&[0, 0, 0, 9, 1]), Err(Error::FormatEncoding));
    assert_eq!(key.comment().as_bytes(), &[b'a', 0xff, 0x00]);
    let mut out = Vec::new();
    key.comment().encode(&mut out).unwrap();
    assert_eq!(out, bytes[..7].to_vec());
    assert_eq!(Comment::decode(&out), Ok((key.comment().clone(), 7)));
}

#[test]
fn comment_can_be_read_over() {
    assert_eq!(Comment::skip(&[0, 0, 0, 3, b'a', 0xff, 0x00, 9, 9]), Ok(7));
    assert_eq!(Comment::skip(&[0, 0, 0, 0]), Ok(4));
    assert_eq!(Comment::skip(&[0, 0, 0, 9, 1]), Err(Error::FormatEncoding));
    assert_eq!(Comment::skip(&[]), Err(Error::FormatEncoding));
}

#[test]
fn comment_too_long_for_the_wire() {
    let comment = Comment::new(vec![b'x'; 0x10_0000]);
    let mut out = vec![1, 2];
    assert_eq!(comment.encode(&mut out), Err(Error::Length));
    assert_eq!(out, vec![1, 2]);
    assert_eq!(comment.len(), 0x10_0000);
}

#[test]
fn comment_can_be_replaced() {
    let mut key = PublicKey::from_bytes(&ED25519_BLOB).unwrap();
    assert_eq!(*key.comment(), Comment::default());
    key.set_comment(Comment::from_text("new"));
    assert_eq!(key.comment().as_bytes(), b"new");
    assert_eq!(key.to_bytes().unwrap(), ED25519_BLOB.to_vec());
    let key_data: KeyData = KeyData::from(&key);
    assert_eq!(key_data, *key.key_data());
    let moved: KeyData = key.clone().into();
    assert_eq!(moved, key_data);
}

#[test]
fn fingerprint_of_ed25519_key() {
    let key = PublicKey::from_bytes(&ED25519_BLOB).unwrap();
    let sha256 = key.fingerprint(HashAlg::Sha256);
    assert_eq!(sha256.algorithm(), HashAlg::Sha256);
    assert_eq!(
        sha256.as_bytes(),
        &[
            0x50, 0x25, 0x22, 0x2e, 0xbe, 0xcf, 0x8e, 0xcf, 0x70, 0x14, 0x52, 0x4c, 0x0c, 0x1c,
            0x8b, 0x81, 0xcd, 0xcd, 0xae, 0xd7, 0x54, 0xdf, 0x8e, 0x0e, 0x81, 0x43, 0x38, 0xe7,
            0x06, 0x4f, 0x70, 0x84
        ]
    );
    let sha512 = key.fingerprint(HashAlg::Sha512);
    assert_eq!(sha512.algorithm(), HashAlg::Sha512);
    assert_eq!(
        sha512.as_bytes(),
        &[
            0xf0, 0x79, 0xb8, 0x78, 0xd4, 0xe2, 0x62, 0x4f, 0x65, 0xe9, 0x64, 0x7c, 0xe4, 0x8a,
            0x98, 0xf9, 0x42, 0xb8, 0x01, 0x76, 0xa3, 0x45, 0xfe, 0x5a, 0xb8, 0xb0, 0xff, 0x40,
            0x8c, 0x42, 0x65, 0x02, 0xf0, 0x1a, 0x90, 0xe2, 0x10, 0x38, 0x97, 0x67, 0x46, 0x6d,
            0xb4, 0xfb, 0xa1, 0xc8, 0x6f, 0x08, 0x1e, 0xc5, 0x9b, 0xb7, 0x6c, 0xee, 0xf0, 0x6d,
            0x3e, 0x1b, 0xa5, 0x48, 0x55, 0x7a, 0x07, 0x84
        ]
    );
    assert_eq!(HashAlg::default(), HashAlg::Sha256);
}

#[test]
fn fingerprint_ignores_the_comment() {
    let plain = PublicKey::from_bytes(&ED25519_BLOB).unwrap();
    let mut labelled = plain.clone();
    labelled.set_comment(Comment::from_text("user@example.com"));
    assert_ne!(plain, labelled);
    assert_eq!(plain.fingerprint(HashAlg::Sha256), labelled.fingerprint(HashAlg::Sha256));
    assert_eq!(plain.fingerprint(HashAlg::Sha512), labelled.fingerprint(HashAlg::Sha512));
    let other = PublicKey::from_bytes(&RSA_BLOB).unwrap();
    assert_ne!(plain.fingerprint(HashAlg::Sha256), other.fingerprint(HashAlg::Sha256));
}

#[test]
fn keys_of_each_algorithm() {
    let dsa = DsaPublicKey::new(vec![0, 0x81], vec![0x11], vec![2], vec![0x33, 0x44]).unwrap();
    assert_eq!((dsa.p(), dsa.q(), dsa.g(), dsa.y()), (&[0, 0x81][..], &[0x11][..], &[2][..], &[0x33, 0x44][..]));
    let key = PublicKey::from(dsa.clone());
    assert_eq!(key.algorithm(), Algorithm::Dsa);
    assert_eq!(key.key_data().dsa(), Some(&dsa));
    assert_eq!(
        key.to_bytes().unwrap(),
        blob("ssh-dss", &[&[0, 0x81], &[0x11], &[2], &[0x33, 0x44]])
    );

    let rsa = RsaPublicKey::new(vec![1, 0, 1], vec![0, 0xc5, 0x17]).unwrap();
    let key = PublicKey::from(rsa.clone());
    assert_eq!(key.algorithm(), Algorithm::Rsa);
    assert_eq!(key.key_data().rsa(), Some(&rsa));
    assert_eq!(key.key_data().dsa(), None);
    assert_eq!(key.to_bytes().unwrap(), blob("ssh-rsa", &[&[1, 0, 1], &[0, 0xc5, 0x17]]));

    let ed25519 = Ed25519PublicKey::new(vec![5u8; 32]).unwrap();
    assert_eq!(ed25519.as_bytes(), &[5u8; 32]);
    let key = PublicKey::from(ed25519.clone());
    assert_eq!(key.key_data().ed25519(), Some(&ed25519));
    assert_eq!(key.to_bytes().unwrap(), blob("ssh-ed25519", &[&[5u8; 32]]));

    let ecdsa = EcdsaPublicKey::new(EcdsaCurve::NistP384, point(97)).unwrap();
    assert_eq!(ecdsa.curve(), EcdsaCurve::NistP384);
    assert_eq!(ecdsa.as_sec1_bytes(), &point(97)[..]);
    let key = PublicKey::from(ecdsa.clone());
    assert_eq!(key.algorithm(), Algorithm::Ecdsa { curve: EcdsaCurve::NistP384 });
    assert_eq!(key.key_data().ecdsa(), Some(&ecdsa));
    assert_eq!(key.key_data().fields(), vec![b"nistp384".to_vec(), point(97)]);
    assert_eq!(
        key.to_bytes().unwrap(),
        blob("ecdsa-sha2-nistp384", &[b"nistp384", &point(97)])
    );

    let sk = SkEd25519::new(vec![6u8; 32], b"ssh:".to_vec()).unwrap();
    assert_eq!(sk.public_key(), &[6u8; 32]);
    assert_eq!(sk.application(), b"ssh:");
    let key = PublicKey::from(sk.clone());
    assert_eq!(key.key_data().sk_ed25519(), Some(&sk));
    assert_eq!(
        key.to_bytes().unwrap(),
        blob("sk-ssh-ed25519@openssh.com", &[&[6u8; 32], b"ssh:"])
    );

    let sk = SkEcdsaSha2NistP256::new(point(65), b"ssh:".to_vec()).unwrap();
    assert_eq!(sk.ec_point(), &point(65)[..]);
    assert_eq!(sk.application(), b"ssh:");
    let key = PublicKey::from(sk.clone());
    assert_eq!(key.key_data().sk_ecdsa_p256(), Some(&sk));
    assert_eq!(
        key.to_bytes().unwrap(),
        blob("sk-ecdsa-sha2-nistp256@openssh.com", &[b"nistp256", &point(65), b"ssh:"])
    );

    let other = OpaquePublicKey::new(Algorithm::Other("x@y.z".to_string()), vec![1, 2]).unwrap();
    assert_eq!(other.algorithm_name(), "x@y.z");
    assert_eq!(other.as_bytes(), &[1, 2]);
    let key = PublicKey::from(other.clone());
    assert_eq!(key.key_data().other(), Some(&other));
    assert_eq!(key.key_data().field_count(), 0);
    assert_eq!(key.key_data().tail(), &[1, 2]);
    assert_eq!(key.key_data().algorithm_id(), "x@y.z");
}

#[test]
fn material_is_checked_when_a_key_is_made() {
    assert_eq!(
        DsaPublicKey::new(vec![0], vec![1], vec![1], vec![1]),
        Err(Error::FormatEncoding)
    );
    assert_eq!(RsaPublicKey::new(vec![1], vec![0x80]), Err(Error::FormatEncoding));
    assert_eq!(Ed25519PublicKey::new(vec![]), Err(Error::FormatEncoding));
    assert_eq!(
        EcdsaPublicKey::new(EcdsaCurve::NistP256, point(97)),
        Err(Error::FormatEncoding)
    );
    assert_eq!(EcdsaPublicKey::new(EcdsaCurve::NistP521, vec![]), Err(Error::FormatEncoding));
    assert_eq!(SkEd25519::new(vec![1u8; 33], vec![]), Err(Error::FormatEncoding));
    assert_eq!(
        SkEd25519::new(vec![1u8; 32], vec![0u8; 0x10_0000]),
        Err(Error::FormatEncoding)
    );
    assert!(SkEd25519::new(vec![1u8; 32], vec![0u8; 0xf_ffff]).is_ok());
    assert_eq!(SkEcdsaSha2NistP256::new(point(64), vec![]), Err(Error::FormatEncoding));
    assert_eq!(OpaquePublicKey::new(Algorithm::Rsa, vec![]), Err(Error::AlgorithmUnknown));
    assert_eq!(
        OpaquePublicKey::new(Algorithm::Other("ssh-rsa".to_string()), vec![]),
        Err(Error::AlgorithmUnknown)
    );
    assert_eq!(
        OpaquePublicKey::new(Algorithm::Other("sk-ssh-ed25519@openssh.com".to_string()), vec![]),
        Err(Error::AlgorithmUnknown)
    );
}
