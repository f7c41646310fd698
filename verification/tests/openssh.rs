use ssh_key::{Algorithm, Comment, Error, KeyData, PublicKey, Serialized};

const ED25519_LINE: &str =
    "ssh-ed25519 AAAAC3NzaC1lZDI1NTE5AAAAILM+rvN+ot98qgEN796jTiQfZfG1KaT0PtFDJ/XFSqti user@example.com";

const ED25519_KEY: [u8; 32] = [
    179, 62, 174, 243, 126, 162, 223, 124, 170, 1, 13, 239, 222, 163, 78, 36, 31, 101, 241, 181,
    41, 164, 244, 62, 209, 67, 39, 245, 197, 74, 171, 98,
];

const RSA_BASE64: &str = "AAAAB3NzaC1yc2EAAAADAQABAAAACQDFFyozRFVmdw==";

fn ed25519_key() -> KeyData {
    KeyData::new(Algorithm::Ed25519, vec![ED25519_KEY.to_vec()], vec![]).unwrap()
}

fn rsa_key() -> KeyData {
    KeyData::new(
        Algorithm::Rsa,
        vec![vec![1, 0, 1], vec![0, 0xc5, 0x17, 0x2a, 0x33, 0x44, 0x55, 0x66, 0x77]],
        vec![],
    )
    .unwrap()
}

#[test]
fn reads_ed25519_line() {
    let key = PublicKey::from_openssh(ED25519_LINE).unwrap();
    assert_eq!(key.algorithm(), Algorithm::Ed25519);
    assert_eq!(key.algorithm().as_str(), "ssh-ed25519");
    assert_eq!(key.comment().as_bytes(), b"user@example.com");
    assert_eq!(key.key_data().fields(), vec![ED25519_KEY.to_vec()]);
    assert_eq!(key.key_data().ed25519().unwrap().as_bytes(), &ED25519_KEY);
    assert!(key.key_data().tail().is_empty());
    assert_eq!(*key.key_data(), ed25519_key());
}

#[test]
fn writes_ed25519_line() {
    let key = PublicKey::new(ed25519_key(), Comment::from_text("user@example.com"));
    assert_eq!(key.to_openssh().unwrap(), ED25519_LINE);
}

#[test]
fn comment_from_text_and_from_bytes() {
    let from_str = PublicKey::new(ed25519_key(), "user@example.com");
    let from_string = PublicKey::new(ed25519_key(), "user@example.com".to_string());
    let from_vec = PublicKey::new(ed25519_key(), b"user@example.com".to_vec());
    let from_slice = PublicKey::new(ed25519_key(), &b"user@example.com"[..]);
    let from_comment = PublicKey::new(ed25519_key(), Comment::from_text("user@example.com"));
    assert_eq!(from_str.comment().as_bytes(), b"user@example.com");
    assert_eq!(from_str, from_string);
    assert_eq!(from_str, from_vec);
    assert_eq!(from_str, from_slice);
    assert_eq!(from_str, from_comment);
    assert_eq!(from_str.to_openssh().unwrap(), ED25519_LINE);
    let mut key = from_str;
    key.set_comment("other");
    assert_eq!(key.comment().as_bytes(), b"other");
    key.set_comment(vec![0xffu8, 0x00]);
    assert_eq!(key.comment().as_bytes(), &[0xff, 0x00]);
    key.set_comment(Comment::default());
    assert!(key.comment().is_empty());
}

#[test]
fn line_round_trip() {
    let key = PublicKey::new(rsa_key(), Comment::from_text("me and you"));
    let line = key.to_openssh().unwrap();
    assert_eq!(line, format!("ssh-rsa {} me and you", RSA_BASE64));
    assert_eq!(PublicKey::from_openssh(&line).unwrap(), key);
}

#[test]
fn line_without_comment() {
    let key = PublicKey::from(rsa_key());
    let line = key.to_openssh().unwrap();
    assert_eq!(line, format!("ssh-rsa {}", RSA_BASE64));
    let back = PublicKey::from_openssh(&line).unwrap();
    assert!(back.comment().is_empty());
    assert_eq!(back, key);
}

#[test]
fn whitespace_at_the_end_is_ignored() {
    let line = format!("{}\n", ED25519_LINE);
    let key = PublicKey::from_openssh(&line).unwrap();
    assert_eq!(key.comment().as_bytes(), b"user@example.com");
    let line = format!("{} \t\r\n\u{a0}\u{3000}", ED25519_LINE);
    let key = PublicKey::from_openssh(&line).unwrap();
    assert_eq!(key.comment().as_bytes(), b"user@example.com");
    let line = format!("ssh-rsa {}   ", RSA_BASE64);
    let key = PublicKey::from_openssh(&line).unwrap();
    assert!(key.comment().is_empty());
}

#[test]
fn whitespace_at_the_start_is_refused() {
    let line = format!(" {}", ED25519_LINE);
    assert_eq!(PublicKey::from_openssh(&line), Err(Error::FormatEncoding));
    let line = format!("\n{}", ED25519_LINE);
    assert_eq!(PublicKey::from_openssh(&line), Err(Error::AlgorithmUnknown));
}

#[test]
fn comment_keeps_its_spaces() {
    let line = format!("ssh-rsa {}  two  words", RSA_BASE64);
    let key = PublicKey::from_openssh(&line).unwrap();
    assert_eq!(key.comment().as_bytes(), b" two  words");
    assert_eq!(key.to_openssh().unwrap(), line);
}

#[test]
fn comment_of_other_scripts() {
    let line = format!("ssh-rsa {} cl\u{e9} \u{9375}", RSA_BASE64);
    let key = PublicKey::from_openssh(&line).unwrap();
    assert_eq!(key.comment().as_bytes(), "cl\u{e9} \u{9375}".as_bytes());
    assert_eq!(key.to_openssh().unwrap(), line);
}

#[test]
fn missing_fields_are_refused() {
    assert_eq!(PublicKey::from_openssh(""), Err(Error::FormatEncoding));
    assert_eq!(PublicKey::from_openssh("   "), Err(Error::FormatEncoding));
    assert_eq!(PublicKey::from_openssh("ssh-ed25519"), Err(Error::FormatEncoding));
    assert_eq!(PublicKey::from_openssh("ssh-ed25519 "), Err(Error::FormatEncoding));
    assert_eq!(
        PublicKey::from_openssh("ssh-ed25519  user@example.com"),
        Err(Error::FormatEncoding)
    );
}

#[test]
fn malformed_base64_is_refused() {
    assert_eq!(
        PublicKey::from_openssh("ssh-ed25519 AAAA*3NzaC1lZDI1NTE5 user@example.com"),
        Err(Error::FormatEncoding)
    );
    assert_eq!(
        PublicKey::from_openssh("ssh-ed25519 AAAAC3NzaC1lZDI1NTE5AAAAILM user@example.com"),
        Err(Error::FormatEncoding)
    );
}

#[test]
fn truncated_key_is_refused() {
    assert_eq!(
        PublicKey::from_openssh("ssh-ed25519 AAAAC3NzaC1lZDI1NTE5AAAAILM+rvN+ user@example.com"),
        Err(Error::FormatEncoding)
    );
}

#[test]
fn spoofed_algorithm_is_refused() {
    let line = format!("ssh-ed25519 {} user@example.com", RSA_BASE64);
    assert_eq!(PublicKey::from_openssh(&line), Err(Error::AlgorithmUnknown));
    let line = format!("ssh-rsa {} user@example.com", RSA_BASE64);
    assert!(PublicKey::from_openssh(&line).is_ok());
}

#[test]
fn parts_with_another_identifier_are_refused() {
    let blob = PublicKey::from(rsa_key()).to_bytes().unwrap();
    assert_eq!(
        PublicKey::from_parts(b"ssh-ed25519", &blob, b""),
        Err(Error::AlgorithmUnknown)
    );
    let key = PublicKey::from_parts(b"ssh-rsa", &blob, b"label").unwrap();
    assert_eq!(key.comment().as_bytes(), b"label");
    assert_eq!(*key.key_data(), rsa_key());
}

#[test]
fn parts_with_bytes_left_over_are_refused() {
    let mut blob = PublicKey::from(rsa_key()).to_bytes().unwrap();
    blob.push(0);
    assert_eq!(PublicKey::from_parts(b"ssh-rsa", &blob, b""), Err(Error::FormatEncoding));
}

#[test]
fn comment_that_is_not_text_is_shown_with_a_mark() {
    let key = PublicKey::new(rsa_key(), Comment::new(vec![b'a', 0xff, b'b']));
    assert_eq!(key.comment().as_str_lossy(), "a\u{fffd}b");
    let line = key.to_openssh().unwrap();
    assert_eq!(line, format!("ssh-rsa {} a\u{fffd}b", RSA_BASE64));
    let back = PublicKey::from_openssh(&line).unwrap();
    assert_eq!(back.comment().as_bytes(), "a\u{fffd}b".as_bytes());
    assert_ne!(back, key);
    assert_eq!(back.key_data(), key.key_data());
}

#[test]
fn comment_that_ends_in_whitespace_loses_it() {
    let key = PublicKey::new(rsa_key(), Comment::from_text("label "));
    let line = key.to_openssh().unwrap();
    let back = PublicKey::from_openssh(&line).unwrap();
    assert_eq!(back.comment().as_bytes(), b"label");
}

#[test]
fn line_of_unknown_algorithm() {
    let line = "foo@example.com AAAAD2Zvb0BleGFtcGxlLmNvbQECAwQF some label";
    let key = PublicKey::from_openssh(line).unwrap();
    assert_eq!(key.algorithm(), Algorithm::Other("foo@example.com".to_string()));
    assert_eq!(key.key_data().tail(), &[1, 2, 3, 4, 5]);
    assert!(key.key_data().fields().is_empty());
    assert_eq!(key.to_openssh().unwrap(), line);
}

#[test]
fn encodes_into_a_buffer() {
    let key = PublicKey::new(ed25519_key(), Comment::from_text("user@example.com"));
    let mut out = [0x2au8; 120];
    let line = key.encode_openssh(&mut out).unwrap();
    assert_eq!(line, ED25519_LINE);
    let n = line.len();
    assert_eq!(n, ED25519_LINE.len());
    assert_eq!(&out[..n], ED25519_LINE.as_bytes());
    assert!(out[n..].iter().all(|b| *b == 0x2a));
}

#[test]
fn encodes_text_of_other_scripts_into_a_buffer() {
    let key = PublicKey::new(rsa_key(), "cl\u{e9} \u{9375}");
    let expected = format!("ssh-rsa {} cl\u{e9} \u{9375}", RSA_BASE64);
    let mut out = vec![0u8; expected.len() + 3];
    assert_eq!(key.encode_openssh(&mut out), Ok(expected.as_str()));
    assert_eq!(&out[..expected.len()], expected.as_bytes());
    assert_eq!(&out[expected.len()..], &[0, 0, 0]);
}

#[test]
fn buffer_of_the_exact_size() {
    let key = PublicKey::new(ed25519_key(), Comment::from_text("user@example.com"));
    let mut out = vec![0u8; ED25519_LINE.len()];
    assert_eq!(key.encode_openssh(&mut out), Ok(ED25519_LINE));
    assert_eq!(out, ED25519_LINE.as_bytes());
}

#[test]
fn buffer_too_small() {
    let key = PublicKey::new(ed25519_key(), Comment::from_text("user@example.com"));
    let mut out = vec![7u8; ED25519_LINE.len() - 1];
    assert_eq!(key.encode_openssh(&mut out), Err(Error::Length));
    assert!(out.iter().all(|b| *b == 7));
    let mut none: [u8; 0] = [];
    assert_eq!(key.encode_openssh(&mut none), Err(Error::Length));
}

#[test]
fn writes_line_with_line_feed() {
    let key = PublicKey::new(ed25519_key(), Comment::from_text("user@example.com"));
    let mut out = b"# keys\n".to_vec();
    key.write_openssh(&mut out).unwrap();
    assert_eq!(out, format!("# keys\n{}\n", ED25519_LINE).into_bytes());
}

#[test]
fn parses_with_from_str() {
    let key: PublicKey = ED25519_LINE.parse().unwrap();
    assert_eq!(key, PublicKey::from_openssh(ED25519_LINE).unwrap());
    assert_eq!("ssh-ed25519".parse::<PublicKey>(), Err(Error::FormatEncoding));
}

#[test]
fn text_form_keeps_the_comment() {
    let key = PublicKey::from_openssh(ED25519_LINE).unwrap();
    let value = key.serialize(true).unwrap();
    assert_eq!(value, Serialized::Text(ED25519_LINE.to_string()));
    assert_eq!(PublicKey::deserialize(&value).unwrap(), key);
}

#[test]
fn binary_form_drops_the_comment() {
    let key = PublicKey::from_openssh(ED25519_LINE).unwrap();
    assert!(!key.comment().is_empty());
    let value = key.serialize(false).unwrap();
    assert_eq!(value, Serialized::Binary(key.to_bytes().unwrap()));
    let back = PublicKey::deserialize(&value).unwrap();
    assert!(back.comment().is_empty());
    assert_eq!(back.key_data(), key.key_data());
    assert_ne!(back, key);
}

#[test]
fn malformed_serialized_values_are_refused() {
    assert_eq!(
        PublicKey::deserialize(&Serialized::Text("ssh-ed25519".to_string())),
        Err(Error::FormatEncoding)
    );
    assert_eq!(
        PublicKey::deserialize(&Serialized::Binary(vec![0, 0, 0])),
        Err(Error::FormatEncoding)
    );
}

#[test]
fn material_of_every_length_is_read_back() {
    for n in 0..200usize {
        let material: Vec<u8> = (0..n).map(|i| (i * 7 + 3) as u8).collect();
        let key_data =
            KeyData::new(Algorithm::Other("x@y".to_string()), vec![], material.clone()).unwrap();
        let key = PublicKey::new(key_data, "label");
        let line = key.to_openssh().unwrap();
        let base64 = line.split(' ').nth(1).unwrap();
        let blob_len = 4 + 3 + n;
        assert_eq!(base64.len(), 4 * ((blob_len + 2) / 3));
        assert!(base64
            .bytes()
            .all(|b| b.is_ascii_alphanumeric() || b == b'+' || b == b'/' || b == b'='));
        let back = PublicKey::from_openssh(&line).unwrap();
        assert_eq!(back, key);
        assert_eq!(back.key_data().tail(), &material[..]);
    }
}

#[test]
fn whitespace_is_what_the_standard_library_trims() {
    let listed = |c: char| {
        matches!(
            c,
            '\u{9}'..='\u{d}'
                | '\u{20}'
                | '\u{85}'
                | '\u{a0}'
                | '\u{1680}'
                | '\u{2000}'..='\u{200a}'
                | '\u{2028}'
                | '\u{2029}'
                | '\u{202f}'
                | '\u{205f}'
                | '\u{3000}'
        )
    };
    let mut codes: Vec<u32> = (0..=0x3100u32).collect();
    codes.extend((0x3100..=0x10_ffffu32).step_by(0x101));
    codes.extend([0xfeff, 0x180e, 0x200b, 0x10_ffff]);
    for code in codes {
        if let Some(c) = char::from_u32(code) {
            let line = format!("ssh-rsa {} x{}", RSA_BASE64, c);
            let key = PublicKey::from_openssh(&line).unwrap();
            let expected = if listed(c) { "x".to_string() } else { format!("x{}", c) };
            assert_eq!(key.comment().as_bytes(), expected.as_bytes(), "U+{:04X}", code);
            assert_eq!(listed(c), c.is_whitespace(), "U+{:04X}", code);
        }
    }
}

#[test]
fn comments_that_are_text_are_shown_as_they_are() {
    let texts = ["", "a", "user@example.com", "cl\u{e9}", "\u{9375}\u{5319}", "\u{1f511} key"];
    for text in texts {
        let comment = Comment::from_text(text);
        assert_eq!(comment.as_str_lossy(), text);
        assert_eq!(comment.as_bytes(), text.as_bytes());
        assert_eq!(comment.len(), text.len());
        assert_eq!(comment.is_empty(), text.is_empty());
    }
    assert_eq!(Comment::new(vec![0xc3]).as_str_lossy(), "\u{fffd}");
    assert_eq!(Comment::new(vec![b'a', 0xe2, 0x82, b'b']).as_str_lossy(), "a\u{fffd}b");
}
