use soda::{keypair_report, new_keypair, strip_line_end, DecryptError, SodaPrivate, SodaPublic};

#[test]
fn encrypt_decrypt() {
    let msg = b"this is my message";
    for _ in 0..100 {
        let (public, private) = new_keypair();
        let encrypted = public.encrypt(msg);
        let decrypted = private.decrypt(&encrypted).unwrap();
        assert_eq!(msg.as_slice(), &decrypted);
    }
}

#[test]
fn ciphertext_is_base64_of_message_plus_overhead() {
    let (public, _) = new_keypair();
    let text = public.encrypt(b"this is my message");
    assert_eq!(text.len(), 88);
    let raw = base64::decode(&text).unwrap();
    assert_eq!(raw.len(), 18 + 48);
}

#[test]
fn ciphertext_text_is_one_base64_line() {
    let (public, _) = new_keypair();
    let text = public.encrypt(b"hello");
    assert_eq!(text.len(), 72);
    assert!(text
        .chars()
        .all(|c| c.is_ascii_alphanumeric() || c == '+' || c == '/' || c == '='));
    assert_eq!(public.encrypt(b"").len(), 64);
}

#[test]
fn printed_line_with_terminator_decrypts() {
    let (public, private) = new_keypair();
    let line = format!("{}\n", public.encrypt(b"hello"));
    assert_eq!(private.decrypt(&line).unwrap(), b"hello".to_vec());
    let crlf = format!("{}\r\n", public.encrypt(b"hello"));
    assert_eq!(private.decrypt(&crlf).unwrap(), b"hello".to_vec());
    let two = format!("{}\n\n", public.encrypt(b"hello"));
    assert_eq!(private.decrypt(&two), Err(DecryptError::InvalidBase64));
}

#[test]
fn strip_line_end_drops_one_terminator() {
    assert_eq!(strip_line_end("abc\n"), "abc");
    assert_eq!(strip_line_end("abc\r\n"), "abc");
    assert_eq!(strip_line_end("abc\n\n"), "abc\n");
    assert_eq!(strip_line_end("abc\r"), "abc\r");
    assert_eq!(strip_line_end("abc"), "abc");
    assert_eq!(strip_line_end(""), "");
}

#[test]
fn each_encryption_differs() {
    let (public, private) = new_keypair();
    let a = public.encrypt(b"same");
    let b = public.encrypt(b"same");
    assert_ne!(a, b);
    assert_eq!(private.decrypt(&a).unwrap(), b"same".to_vec());
    assert_eq!(private.decrypt(&b).unwrap(), b"same".to_vec());
}

#[test]
fn other_private_key_cannot_decrypt() {
    for _ in 0..20 {
        let (public_a, _) = new_keypair();
        let (_, private_b) = new_keypair();
        let text = public_a.encrypt(b"this is my message");
        assert_eq!(private_b.decrypt(&text), Err(DecryptError::DecryptionFailed));
    }
}

#[test]
fn changed_ciphertext_does_not_decrypt() {
    let (public, private) = new_keypair();
    let text = public.encrypt(b"hello");
    let chars: Vec<char> = text.chars().collect();
    for i in 0..chars.len() {
        let mut changed = chars.clone();
        changed[i] = if chars[i] == 'A' { 'B' } else { 'A' };
        let changed: String = changed.into_iter().collect();
        assert!(private.decrypt(&changed).is_err(), "position {}", i);
    }
}

#[test]
fn empty_plaintext_round_trips() {
    let (public, private) = new_keypair();
    let text = public.encrypt(b"");
    assert_eq!(base64::decode(&text).unwrap().len(), 48);
    assert_eq!(private.decrypt(&text), Ok(Vec::new()));
}

#[test]
fn binary_plaintext_round_trips() {
    let (public, private) = new_keypair();
    let msg: Vec<u8> = (0..=255u8).collect();
    let text = public.encrypt(&msg);
    assert_eq!(private.decrypt(&text), Ok(msg));
}

#[test]
fn invalid_base64_is_refused() {
    let (_, private) = new_keypair();
    assert_eq!(private.decrypt("not base64!"), Err(DecryptError::InvalidBase64));
}

#[test]
fn short_box_does_not_open() {
    let (_, private) = new_keypair();
    let text = base64::encode([7u8; 10]);
    assert_eq!(private.decrypt(&text), Err(DecryptError::DecryptionFailed));
    assert_eq!(private.decrypt(""), Err(DecryptError::DecryptionFailed));
    assert_eq!(private.open_box(&[0u8; 47]), Err(DecryptError::DecryptionFailed));
}

#[test]
fn open_box_reads_raw_sealed_bytes() {
    let (public, private) = new_keypair();
    let raw = base64::decode(public.encrypt(b"raw")).unwrap();
    assert_eq!(private.open_box(&raw), Ok(b"raw".to_vec()));
}

#[test]
fn public_key_of_private_matches_generated_pair() {
    for _ in 0..20 {
        let (public, private) = new_keypair();
        assert_eq!(private.public_key(), public);
    }
}

#[test]
fn public_key_of_known_private_key() {
    // The X25519 base-point multiple of this key, from RFC 7748 section 6.1.
    let sk = SodaPrivate::parse(
        "sodapriv77076d0a7318a57d3c16c17251b26645df4c2f87ebc0992ab177fba51db92c2a",
    )
    .unwrap();
    let pk = SodaPublic::parse(
        "sodapub8520f0098930a754748b7ddcb43ef75a0dbf3a0d26381af4eba4a98eaa9b4e6a",
    )
    .unwrap();
    assert_eq!(sk.public_key(), pk);
}

#[test]
fn hello_through_encrypt_then_decrypt() {
    let (public, private) = new_keypair();
    let public: SodaPublic = public.to_string().parse().unwrap();
    let private: SodaPrivate = private.to_string().parse().unwrap();
    let line = public.encrypt(b"hello");
    assert!(!line.is_empty());
    assert!(!line.contains('\n'));
    assert_eq!(private.decrypt(&line).unwrap(), b"hello".to_vec());
}

#[test]
fn keypair_report_labels_both_keys() {
    let (public, private) = new_keypair();
    let text = keypair_report(&public, &private);
    let expected = format!(
        "Public key (send to others for encrypting): {}\nPrivate key (keep for yourself for decrypting): {}\n",
        public.to_string(),
        private.to_string()
    );
    assert_eq!(text, expected);
}
