use forum_core::{
    normalize_email, normalize_slug, normalize_username, validate_body, validate_title, DomainError,
};

#[test]
fn normalization_is_deterministic() {
    assert_eq!(normalize_username("  Alice-1 ").unwrap(), "alice-1");
    assert_eq!(normalize_email(" A@Example.COM ").unwrap(), "a@example.com");
    assert!(normalize_slug("not valid").is_err());
}

#[test]
fn username_bounds_and_characters() {
    assert_eq!(normalize_username("ab"), Err(DomainError::InvalidUsername));
    assert_eq!(normalize_username("abc").unwrap(), "abc");
    assert_eq!(normalize_username(&"a".repeat(32)).unwrap(), "a".repeat(32));
    assert_eq!(normalize_username(&"a".repeat(33)), Err(DomainError::InvalidUsername));
    assert_eq!(normalize_username("_abc"), Err(DomainError::InvalidUsername));
    assert_eq!(normalize_username("-abc"), Err(DomainError::InvalidUsername));
    assert_eq!(normalize_username("a_b-c").unwrap(), "a_b-c");
    assert_eq!(normalize_username("a b c"), Err(DomainError::InvalidUsername));
    assert_eq!(normalize_username("ÄBCD"), Err(DomainError::InvalidUsername));
    assert_eq!(normalize_username("\u{3000}Bob\t\n").unwrap(), "bob");
}

#[test]
fn username_normal_form_is_accepted_unchanged() {
    let once = normalize_username("  MiXeD_Case-9 ").unwrap();
    let twice = normalize_username(&once).unwrap();
    assert_eq!(once, "mixed_case-9");
    assert_eq!(once, twice);
}

#[test]
fn email_rules() {
    assert_eq!(normalize_email("user@example.com").unwrap(), "user@example.com");
    assert_eq!(normalize_email("userexample.com"), Err(DomainError::InvalidEmail));
    assert_eq!(normalize_email("@example.com"), Err(DomainError::InvalidEmail));
    assert_eq!(normalize_email("user@"), Err(DomainError::InvalidEmail));
    assert_eq!(normalize_email("user@localhost"), Err(DomainError::InvalidEmail));
    // the split is at the first `@`: the domain part may hold another `@`
    assert_eq!(normalize_email("a@b@c.d").unwrap(), "a@b@c.d");
    // the dot must come after the `@`
    assert_eq!(normalize_email("a.b@c"), Err(DomainError::InvalidEmail));
    // non-ASCII letters are kept as they are
    assert_eq!(normalize_email(" Ü@Ex.Org ").unwrap(), "Ü@ex.org");
}

#[test]
fn email_length_counts_utf8_bytes() {
    let local = "a".repeat(250);
    let ok = format!("{local}@b.c");
    assert_eq!(ok.len(), 254);
    assert_eq!(normalize_email(&ok).unwrap(), ok);
    let long = format!("{local}a@b.c");
    assert_eq!(normalize_email(&long), Err(DomainError::InvalidEmail));
    // 126 two-byte characters take 252 bytes; with "@b.c" that is 256 bytes
    let wide = format!("{}@b.c", "é".repeat(126));
    assert_eq!(wide.chars().count(), 130);
    assert_eq!(normalize_email(&wide), Err(DomainError::InvalidEmail));
}

#[test]
fn email_normal_form_is_accepted_unchanged() {
    let once = normalize_email(" A.B@Example.COM").unwrap();
    assert_eq!(normalize_email(&once).unwrap(), once);
}

#[test]
fn slug_rules() {
    assert_eq!(normalize_slug(" General ").unwrap(), "general");
    assert_eq!(normalize_slug("a"), Err(DomainError::InvalidSlug));
    assert_eq!(normalize_slug("ab").unwrap(), "ab");
    assert_eq!(normalize_slug(&"a".repeat(80)).unwrap(), "a".repeat(80));
    assert_eq!(normalize_slug(&"a".repeat(81)), Err(DomainError::InvalidSlug));
    assert_eq!(normalize_slug("-ab"), Err(DomainError::InvalidSlug));
    assert_eq!(normalize_slug("ab-"), Err(DomainError::InvalidSlug));
    assert_eq!(normalize_slug("a--b"), Err(DomainError::InvalidSlug));
    assert_eq!(normalize_slug("a-b-c").unwrap(), "a-b-c");
    assert_eq!(normalize_slug("a_b"), Err(DomainError::InvalidSlug));
    let once = normalize_slug("Rust-2024").unwrap();
    assert_eq!(normalize_slug(&once).unwrap(), once);
}

#[test]
fn title_and_body_bounds() {
    assert_eq!(validate_title("  Hi  "), Err(DomainError::InvalidTitle));
    assert_eq!(validate_title("  Hey  ").unwrap(), "Hey");
    assert_eq!(validate_title(&"é".repeat(200)).unwrap(), "é".repeat(200));
    assert_eq!(validate_title(&"x".repeat(201)), Err(DomainError::InvalidTitle));
    assert_eq!(validate_body("   "), Err(DomainError::InvalidBody));
    assert_eq!(validate_body(" x ").unwrap(), "x");
    assert_eq!(validate_body(&"y".repeat(100_000)).unwrap(), "y".repeat(100_000));
    assert_eq!(validate_body(&"y".repeat(100_001)), Err(DomainError::InvalidBody));
    let once = validate_body("\n keep  inner  space \n").unwrap();
    assert_eq!(once, "keep  inner  space");
    assert_eq!(validate_body(&once).unwrap(), once);
}

#[test]
fn error_messages() {
    assert_eq!(DomainError::InvalidUsername.message(), "invalid username");
    assert_eq!(DomainError::InvalidEmail.message(), "invalid email");
    assert_eq!(DomainError::InvalidSlug.message(), "invalid slug");
    assert_eq!(DomainError::InvalidPassword.message(), "invalid password");
    assert_eq!(DomainError::InvalidTitle.message(), "invalid title");
    assert_eq!(DomainError::InvalidBody.message(), "invalid body");
    assert_eq!(DomainError::Crypto.message(), "cryptographic operation failed");
}
