use forum_core::api::{
    api_error, bearer, check_login, is_unique_violation, issue_session, logout_session,
    new_user_role, normalize_login, parse_id, prepare_category, prepare_post, prepare_registration,
    prepare_topic, require_admin, require_user, session_cache_key, session_for_header, HttpError,
    SESSION_TTL_SECONDS,
};
use forum_core::api::{
    begin_category, begin_login, begin_post, begin_registration, begin_topic,
    category_insert_failure, read_payload, require_category, require_topic, session_from_uuids,
    topic_found, user_insert_failure,
};
use forum_core::auth::{hash_password_with_salt, id_from_uuid, session_token_from};
use forum_core::{
    LoginInput,
    hash_password, new_id, token_digest, CategoryInput, PostInput, RegisterInput, TopicInput, User,
    UserWithPassword,
};

fn user(role: &str) -> User {
    User {
        id: "0f8fad5b-d9cb-469f-a165-70867728950e".to_string(),
        username: "founder".to_string(),
        email: "founder@example.com".to_string(),
        role: role.to_string(),
        created_at: "2024-01-01T00:00:00.000Z".to_string(),
    }
}

#[test]
fn bearer_reads_only_well_formed_tokens() {
    let token = "0123456789abcdefABCDEF0123456789abcdef0123456789abcdef0123456789";
    assert_eq!(token.len(), 64);
    let header = format!("Bearer {token}");
    assert_eq!(bearer(Some(&header)), Some(token.to_string()));
    assert_eq!(bearer(None), None);
    assert_eq!(bearer(Some(token)), None);
    assert_eq!(bearer(Some(&format!("bearer {token}"))), None);
    assert_eq!(bearer(Some(&format!("Bearer  {token}"))), None);
    assert_eq!(bearer(Some(&format!("Bearer {}", &token[1..]))), None);
    assert_eq!(bearer(Some(&format!("Bearer {token}0"))), None);
    assert_eq!(bearer(Some(&format!("Bearer {}g", &token[1..]))), None);
    assert_eq!(bearer(Some("Bearer ")), None);
}

#[test]
fn issued_session_is_found_from_its_bearer_header() {
    let session = issue_session();
    assert_eq!(session.token.len(), 64);
    assert_eq!(session.digest, token_digest(&session.token));
    assert_eq!(session.cache_key, format!("session:{}", session.digest));
    let header = format!("Bearer {}", session.token);
    assert_eq!(bearer(Some(&header)), Some(session.token.clone()));
    let key = session_for_header(Some(&header)).unwrap();
    assert_eq!(key.digest, session.digest);
    assert_eq!(key.cache_key, session.cache_key);
    let ended = logout_session(Some(&header)).unwrap();
    assert_eq!(ended.digest, session.digest);
}

#[test]
fn requests_without_token_are_refused() {
    assert!(session_for_header(None).is_none());
    assert!(session_for_header(Some("Basic abc")).is_none());
    let e = logout_session(None).unwrap_err();
    assert_eq!((e.status, e.message), (401, "authentication required"));
    let e = logout_session(Some("Bearer xyz")).unwrap_err();
    assert_eq!(e.status, 401);
}

#[test]
fn cache_key_and_ttl() {
    assert_eq!(session_cache_key("abc"), "session:abc");
    assert_eq!(SESSION_TTL_SECONDS, 604_800);
}

#[test]
fn error_replies() {
    let cases = [
        (HttpError::bad_request("invalid JSON"), 400),
        (HttpError::unauthorized("authentication required"), 401),
        (HttpError::forbidden("administrator required"), 403),
        (HttpError::not_found("topic not found"), 404),
        (HttpError::conflict("category slug already exists"), 409),
        (HttpError::unprocessable("invalid title"), 422),
    ];
    for (e, status) in cases {
        assert_eq!(e.status, status);
        assert_eq!(e.body().error, e.message);
    }
    let e = HttpError::internal();
    assert_eq!((e.status, e.message), (500, "internal server error"));
    let e = api_error("topic not found", 404);
    assert_eq!((e.status, e.message), (404, "topic not found"));
}

#[test]
fn first_account_is_administrator() {
    assert_eq!(new_user_role(true), "admin");
    assert_eq!(new_user_role(false), "member");
}

#[test]
fn users_and_administrators() {
    assert_eq!(require_user(Some(user("member"))).unwrap(), user("member"));
    let e = require_user(None).unwrap_err();
    assert_eq!((e.status, e.message), (401, "authentication required"));
    assert!(require_admin(&user("admin")).is_ok());
    let e = require_admin(&user("member")).unwrap_err();
    assert_eq!((e.status, e.message), (403, "administrator required"));
    assert!(require_admin(&user("Admin")).is_err());
}

fn registration(username: &str, email: &str, password: &str) -> RegisterInput {
    RegisterInput {
        username: username.to_string(),
        email: email.to_string(),
        password: password.to_string(),
    }
}

#[test]
fn registration_checks_in_order() {
    let e = prepare_registration(&registration("x", "bad", "short")).unwrap_err();
    assert_eq!((e.status, e.message), (422, "invalid username"));
    let e = prepare_registration(&registration("founder", "bad", "short")).unwrap_err();
    assert_eq!((e.status, e.message), (422, "invalid email"));
    let e = prepare_registration(&registration("founder", "f@e.com", "short")).unwrap_err();
    assert_eq!((e.status, e.message), (422, "password must contain 12 to 256 bytes"));
    let ok = prepare_registration(&registration(
        " Founder ",
        "Founder@Example.com",
        "correct horse battery staple",
    ))
    .unwrap();
    assert_eq!(ok.username, "founder");
    assert_eq!(ok.email, "founder@example.com");
    assert!(forum_core::verify_password("correct horse battery staple", &ok.password_hash));
}

#[test]
fn login_checks_the_password() {
    assert_eq!(normalize_login("  Founder@Example.COM "), "founder@example.com");
    let account = UserWithPassword {
        id: "id-1".to_string(),
        username: "founder".to_string(),
        email: "founder@example.com".to_string(),
        role: "admin".to_string(),
        password_hash: hash_password("correct horse battery staple").unwrap(),
        created_at: "now".to_string(),
    };
    let public = account.public();
    assert_eq!(public.id, "id-1");
    assert_eq!(public.username, "founder");
    assert_eq!(public.email, "founder@example.com");
    assert_eq!(public.role, "admin");
    assert_eq!(public.created_at, "now");
    assert_eq!(check_login(Some(&account), "correct horse battery staple").unwrap(), public);
    let e = check_login(Some(&account), "wrong horse battery staple").unwrap_err();
    assert_eq!((e.status, e.message), (401, "invalid credentials"));
    let e = check_login(None, "correct horse battery staple").unwrap_err();
    assert_eq!((e.status, e.message), (401, "invalid credentials"));
}

#[test]
fn unique_violation_code() {
    assert!(is_unique_violation(Some("23505")));
    assert!(!is_unique_violation(Some("23503")));
    assert!(!is_unique_violation(None));
}

#[test]
fn ids_parse_back_to_their_uuid() {
    let id = new_id();
    let bytes = parse_id(&id, "user not found").unwrap();
    let hex: String = bytes.iter().map(|b| format!("{b:02x}")).collect();
    assert_eq!(hex, id.replace('-', ""));
    let e = parse_id("not-a-uuid", "topic not found").unwrap_err();
    assert_eq!((e.status, e.message), (404, "topic not found"));
    assert_eq!(
        parse_id("0F8FAD5BD9CB469FA16570867728950E", "x").unwrap()[0],
        0x0f
    );
}

#[test]
fn category_checks() {
    let input = |name: &str, slug: &str| CategoryInput { name: name.to_string(), slug: slug.to_string() };
    let d = prepare_category(&input("  General ", " General ")).unwrap();
    assert_eq!((d.name.as_str(), d.slug.as_str()), ("General", "general"));
    let e = prepare_category(&input(" G ", "general")).unwrap_err();
    assert_eq!((e.status, e.message), (422, "invalid category name"));
    let e = prepare_category(&input(&"n".repeat(81), "general")).unwrap_err();
    assert_eq!((e.status, e.message), (422, "invalid category name"));
    let e = prepare_category(&input("General", "not valid")).unwrap_err();
    assert_eq!((e.status, e.message), (422, "invalid category slug"));
}

#[test]
fn topic_and_post_checks() {
    let topic = |title: &str, body: &str| TopicInput {
        category_id: "c".to_string(),
        title: title.to_string(),
        body: body.to_string(),
    };
    let d = prepare_topic(&topic(" The first topic ", " Hello ")).unwrap();
    assert_eq!((d.title.as_str(), d.body.as_str()), ("The first topic", "Hello"));
    let e = prepare_topic(&topic("no", "")).unwrap_err();
    assert_eq!((e.status, e.message), (422, "invalid title"));
    let e = prepare_topic(&topic("The first topic", "  ")).unwrap_err();
    assert_eq!((e.status, e.message), (422, "invalid body"));
    let post = |body: &str| PostInput { body: body.to_string() };
    assert_eq!(prepare_post(&post(" reply ")).unwrap(), "reply");
    let e = prepare_post(&post("\t")).unwrap_err();
    assert_eq!((e.status, e.message), (422, "invalid body"));
}

#[test]
fn handler_steps_check_in_order() {

    let e = read_payload::<u8>(None).unwrap_err();
    assert_eq!((e.status, e.message), (400, "invalid JSON"));
    assert_eq!(read_payload(Some(7u8)).unwrap(), 7);

    let e = begin_registration(None).unwrap_err();
    assert_eq!((e.status, e.message), (400, "invalid JSON"));
    let e = begin_registration(Some(registration("x", "f@e.com", "correct horse battery staple")))
        .unwrap_err();
    assert_eq!((e.status, e.message), (422, "invalid username"));
    let ok = begin_registration(Some(registration("Founder", "f@e.com", "correct horse battery staple")))
        .unwrap();
    assert_eq!(ok.username, "founder");

    let e = begin_login(None).unwrap_err();
    assert_eq!((e.status, e.message), (400, "invalid JSON"));
    let l = begin_login(Some(LoginInput { login: " Founder ".to_string(), password: "pw".to_string() }))
        .unwrap();
    assert_eq!((l.login.as_str(), l.password.as_str()), ("founder", "pw"));

    let cat = |name: &str, slug: &str| Some(CategoryInput { name: name.to_string(), slug: slug.to_string() });
    let e = begin_category(None, None).unwrap_err();
    assert_eq!((e.status, e.message), (401, "authentication required"));
    let e = begin_category(Some(user("member")), None).unwrap_err();
    assert_eq!((e.status, e.message), (403, "administrator required"));
    let e = begin_category(Some(user("admin")), None).unwrap_err();
    assert_eq!((e.status, e.message), (400, "invalid JSON"));
    let e = begin_category(Some(user("admin")), cat("G", "x")).unwrap_err();
    assert_eq!((e.status, e.message), (422, "invalid category name"));
    let e = begin_category(Some(user("admin")), cat("General", "x")).unwrap_err();
    assert_eq!((e.status, e.message), (422, "invalid category slug"));
    let c = begin_category(Some(user("admin")), cat(" General ", "General")).unwrap();
    assert_eq!((c.name.as_str(), c.slug.as_str()), ("General", "general"));
    assert_eq!(c.creator, user("admin"));

    let id = new_id();
    let topic = |title: &str, body: &str, category: &str| {
        Some(TopicInput { category_id: category.to_string(), title: title.to_string(), body: body.to_string() })
    };
    let e = begin_topic(None, topic("The first topic", "Hello", &id)).unwrap_err();
    assert_eq!((e.status, e.message), (401, "authentication required"));
    let e = begin_topic(Some(user("member")), None).unwrap_err();
    assert_eq!((e.status, e.message), (400, "invalid JSON"));
    let e = begin_topic(Some(user("member")), topic("no", "", "bad")).unwrap_err();
    assert_eq!((e.status, e.message), (422, "invalid title"));
    let e = begin_topic(Some(user("member")), topic("The first topic", " ", "bad")).unwrap_err();
    assert_eq!((e.status, e.message), (422, "invalid body"));
    let e = begin_topic(Some(user("member")), topic("The first topic", "Hello", "bad")).unwrap_err();
    assert_eq!((e.status, e.message), (404, "category not found"));
    let t = begin_topic(Some(user("member")), topic("The first topic", "Hello", &id)).unwrap();
    assert_eq!(t.category_id, parse_id(&id, "x").unwrap());
    assert_eq!(t.title, "The first topic");

    let post = |body: &str| Some(PostInput { body: body.to_string() });
    let e = begin_post(None, "bad", None).unwrap_err();
    assert_eq!((e.status, e.message), (401, "authentication required"));
    let e = begin_post(Some(user("member")), "bad", None).unwrap_err();
    assert_eq!((e.status, e.message), (404, "topic not found"));
    let e = begin_post(Some(user("member")), &id, None).unwrap_err();
    assert_eq!((e.status, e.message), (400, "invalid JSON"));
    let e = begin_post(Some(user("member")), &id, post(" ")).unwrap_err();
    assert_eq!((e.status, e.message), (422, "invalid body"));
    let p = begin_post(Some(user("member")), &id, post(" This is the first reply. ")).unwrap();
    assert_eq!(p.body, "This is the first reply.");

    assert!(require_category(true).is_ok());
    let e = require_category(false).unwrap_err();
    assert_eq!((e.status, e.message), (404, "category not found"));
    assert!(require_topic(true).is_ok());
    let e = require_topic(false).unwrap_err();
    assert_eq!((e.status, e.message), (404, "topic not found"));
    let e = topic_found(None).unwrap_err();
    assert_eq!((e.status, e.message), (404, "topic not found"));

    let e = user_insert_failure(Some("23505"));
    assert_eq!((e.status, e.message), (409, "username or email already exists"));
    let e = user_insert_failure(None);
    assert_eq!((e.status, e.message), (500, "internal server error"));
    let e = category_insert_failure(Some("23505"));
    assert_eq!((e.status, e.message), (409, "category slug already exists"));
    let e = category_insert_failure(Some("40001"));
    assert_eq!(e.status, 500);
}

#[test]
fn sessions_and_hashes_from_given_uuid_bytes() {

    let b1 = [0x01u8; 16];
    let mut b2 = [0xabu8; 16];
    b2[15] = 0x0f;
    let token = session_token_from(b1, b2);
    assert_eq!(token, format!("{}{}0f", "01".repeat(16), "ab".repeat(15)));
    let session = session_from_uuids(b1, b2);
    assert_eq!(session.token, token);
    assert_eq!(session.digest, token_digest(&token));
    assert_eq!(
        id_from_uuid([0x0f, 0x8f, 0xad, 0x5b, 0xd9, 0xcb, 0x46, 0x9f, 0xa1, 0x65, 0x70, 0x86, 0x77, 0x28, 0x95, 0x0e]),
        "0f8fad5b-d9cb-469f-a165-70867728950e"
    );
    let salt = [7u8; 16];
    let first = hash_password_with_salt("correct horse battery staple", salt).unwrap();
    let second = hash_password_with_salt("correct horse battery staple", salt).unwrap();
    assert_eq!(first, second);
    assert!(first.contains("$BwcHBwcHBwcHBwcHBwcHBw$"));
    assert_eq!(
        hash_password_with_salt("short", salt),
        Err(forum_core::DomainError::InvalidPassword)
    );
}

#[test]
fn verify_refuses_text_without_leading_dollar() {
    let encoded = hash_password("correct horse battery staple").unwrap();
    assert!(forum_core::verify_password("correct horse battery staple", &encoded));
    assert!(!forum_core::verify_password("correct horse battery staple", &encoded[1..]));
    assert!(!forum_core::verify_password("correct horse battery staple", &format!(" {encoded}")));
}
