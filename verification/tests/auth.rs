use forum_core::{hash_password, new_id, new_session_token, token_digest, verify_password, DomainError};

#[test]
fn password_round_trip_and_rejects_wrong_value() {
    let encoded = hash_password("correct horse battery staple").unwrap();
    assert!(verify_password("correct horse battery staple", &encoded));
    assert!(!verify_password("incorrect horse battery staple", &encoded));
    assert!(!encoded.contains("correct horse battery staple"));
}

#[test]
fn tokens_are_not_stored_verbatim() {
    let token = new_session_token();
    assert_eq!(token.len(), 64);
    assert_ne!(token, token_digest(&token));
}

#[test]
fn password_length_is_counted_in_bytes() {
    assert_eq!(hash_password("elevenchars"), Err(DomainError::InvalidPassword));
    assert_eq!(hash_password(""), Err(DomainError::InvalidPassword));
    assert_eq!(hash_password(&"p".repeat(257)), Err(DomainError::InvalidPassword));
    assert!(hash_password("twelve chars").is_ok());
    assert!(hash_password(&"p".repeat(256)).is_ok());
    // six two-byte characters are twelve bytes
    assert!(hash_password(&"é".repeat(6)).is_ok());
    // five two-byte characters are ten bytes
    assert_eq!(hash_password(&"é".repeat(5)), Err(DomainError::InvalidPassword));
}

#[test]
fn password_hash_is_an_argon2_phc_string_with_fresh_salt() {
    let first = hash_password("correct horse battery staple").unwrap();
    let second = hash_password("correct horse battery staple").unwrap();
    assert!(first.starts_with("$argon2id$v=19$m=19456,t=2,p=1$"));
    // the salt is the unpadded Base64 text of 16 random bytes: 22 characters
    let salt = first.split('$').nth(4).unwrap();
    assert_eq!(salt.len(), 22);
    assert!(salt
        .bytes()
        .all(|c| c.is_ascii_alphanumeric() || c == b'+' || c == b'/'));
    assert_ne!(first, second);
    assert!(verify_password("correct horse battery staple", &second));
}

#[test]
fn verify_rejects_text_that_is_not_a_phc_string() {
    assert!(!verify_password("correct horse battery staple", "not a hash"));
    assert!(!verify_password("correct horse battery staple", ""));
}

#[test]
fn token_digest_is_hex_sha256() {
    assert_eq!(
        token_digest("abc"),
        "ba7816bf8f01cfea414140de5dae2223b00361a396177a9cb410ff61f20015ad"
    );
    assert_eq!(
        token_digest(""),
        "e3b0c44298fc1c149afbf4c8996fb92427ae41e4649b934ca495991b7852b855"
    );
    let token = new_session_token();
    assert_eq!(token_digest(&token), token_digest(&token));
}

#[test]
fn session_tokens_are_lower_hex_and_fresh() {
    let a = new_session_token();
    let b = new_session_token();
    assert!(a.bytes().all(|c| c.is_ascii_digit() || (b'a'..=b'f').contains(&c)));
    assert_ne!(a, b);
    // both halves are version 4 UUIDs
    assert_eq!(&a[12..13], "4");
    assert_eq!(&a[44..45], "4");
    assert!("89ab".contains(&a[16..17]));
    assert!("89ab".contains(&a[48..49]));
}

#[test]
fn ids_are_hyphenated_v4_uuids() {
    let id = new_id();
    assert_eq!(id.len(), 36);
    for (i, c) in id.chars().enumerate() {
        if [8, 13, 18, 23].contains(&i) {
            assert_eq!(c, '-');
        } else {
            assert!(c.is_ascii_digit() || ('a'..='f').contains(&c));
        }
    }
    assert_eq!(&id[14..15], "4");
    assert!("89ab".contains(&id[19..20]));
    assert_ne!(new_id(), new_id());
}
