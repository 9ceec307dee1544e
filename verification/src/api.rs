//! The decisions of the forum's HTTP handlers: which requests are refused with
//! which status and message, how a bearer token is read from a request, how a
//! session is issued and found again, and which checks guard each write.
//!
//! The handlers that call these functions do the storage and transport work.
use uuid::Uuid;
use vstd::prelude::*;
use vstd::utf8::encode_utf8;

use crate::auth::{
    argon2_accepts, argon2_phc, b64_unpadded, hash_password_with_salt, is_acceptable_password,
    is_issued_token, is_password_hash_of, is_v4_uuid, random_uuid_v4, session_token_from,
    token_digest, token_digest_text, uuid_text, verify_password,
};
use crate::model::{
    ApiError, CategoryInput, LoginInput, PostInput, RegisterInput, Topic, TopicInput, User,
    UserWithPassword,
};
use crate::text::{
    chars_of, fold, fold_to_string, hex_lower, is_ascii_hexdigit, is_ascii_hexdigit_exec,
    lemma_hex_lower_digits, push_char, trim, trim_to_string,
};
use crate::validation::{
    is_valid_body, is_valid_email, is_valid_slug, is_valid_title, is_valid_username,
    normalize_email, normalize_slug, normalize_username, validate_body, validate_title,
};

verus! {

broadcast use vstd::string::group_string_axioms;

/// How long a session lasts, in seconds (seven days).
pub const SESSION_TTL_SECONDS: u64 = 60 * 60 * 24 * 7;

// ---------------------------------------------------------------------------
// Refusals
// ---------------------------------------------------------------------------

/// A refused request: the HTTP status and the message of the error body.
#[derive(Debug, Clone, Copy)]
pub struct HttpError {
    pub status: u16,
    pub message: &'static str,
}

/// `e` carries `status` and the message `message`.
pub open spec fn refuses(e: HttpError, status: u16, message: Seq<char>) -> bool {
    e.status == status && e.message@ == message
}

impl HttpError {
    pub fn bad_request(message: &'static str) -> (e: Self)
        ensures
            e.status == 400 && e.message == message,
    {
        HttpError { status: 400, message }
    }

    pub fn unauthorized(message: &'static str) -> (e: Self)
        ensures
            e.status == 401 && e.message == message,
    {
        HttpError { status: 401, message }
    }

    pub fn forbidden(message: &'static str) -> (e: Self)
        ensures
            e.status == 403 && e.message == message,
    {
        HttpError { status: 403, message }
    }

    pub fn not_found(message: &'static str) -> (e: Self)
        ensures
            e.status == 404 && e.message == message,
    {
        HttpError { status: 404, message }
    }

    pub fn conflict(message: &'static str) -> (e: Self)
        ensures
            e.status == 409 && e.message == message,
    {
        HttpError { status: 409, message }
    }

    pub fn unprocessable(message: &'static str) -> (e: Self)
        ensures
            e.status == 422 && e.message == message,
    {
        HttpError { status: 422, message }
    }

    /// A failure of the server itself; what failed is not shown to the client.
    pub fn internal() -> (e: Self)
        ensures
            refuses(e, 500, "internal server error"@),
    {
        HttpError { status: 500, message: "internal server error" }
    }

    /// The JSON body of the reply: `{"error": message}`.
    pub fn body(&self) -> (b: ApiError<'static>)
        ensures
            b.error == self.message,
    {
        ApiError { error: self.message }
    }
}

/// An error reply with the given message and status.
pub fn api_error(message: &'static str, status: u16) -> (e: HttpError)
    ensures
        e.status == status && e.message == message,
{
    HttpError { status, message }
}

// ---------------------------------------------------------------------------
// Bearer tokens and sessions
// ---------------------------------------------------------------------------

/// The shape of a token that the forum will look up: 64 ASCII hexadecimal digits.
pub open spec fn is_token_shape(t: Seq<char>) -> bool {
    &&& t.len() == 64
    &&& forall|i: int| 0 <= i < t.len() ==> is_ascii_hexdigit(#[trigger] t[i])
}

/// The token that an `Authorization` header value carries: what follows the
/// prefix `Bearer `, if it has the shape of a token.
pub open spec fn bearer_token(h: Seq<char>) -> Option<Seq<char>> {
    if h.len() >= 7 && h.take(7) == "Bearer "@ && is_token_shape(h.skip(7)) {
        Some(h.skip(7))
    } else {
        None
    }
}

/// The token of a request, from its `Authorization` header value, if any.
pub fn bearer(header: Option<&str>) -> (r: Option<String>)
    ensures
        match header {
            None => r is None,
            Some(h) => match bearer_token(h@) {
                Some(t) => r matches Some(s) && s@ == t,
                None => r is None,
            },
        },
{
    let h = match header {
        Some(h) => h,
        None => return None,
    };
    let v = chars_of(h);
    let n = v.len();
    proof {
        reveal_strlit("Bearer ");
    }
    if n < 7 || v[0] != 'B' || v[1] != 'e' || v[2] != 'a' || v[3] != 'r' || v[4] != 'e' || v[5]
        != 'r' || v[6] != ' ' {
        proof {
            if n >= 7 {
                assert(v@.take(7)[0] == v@[0]);
                assert(v@.take(7)[1] == v@[1]);
                assert(v@.take(7)[2] == v@[2]);
                assert(v@.take(7)[3] == v@[3]);
                assert(v@.take(7)[4] == v@[4]);
                assert(v@.take(7)[5] == v@[5]);
                assert(v@.take(7)[6] == v@[6]);
            }
        }
        return None;
    }
    proof {
        assert(v@.take(7) =~= "Bearer "@);
    }
    if n != 71 {
        return None;
    }
    let mut t = String::new();
    let mut i: usize = 7;
    while i < n
        invariant
            7 <= i <= n,
            n == v@.len(),
            n == 71,
            header == Some(h),
            v@ == h@,
            v@.take(7) == "Bearer "@,
            t@ == v@.subrange(7, i as int),
            forall|k: int| 7 <= k < i ==> is_ascii_hexdigit(#[trigger] v@[k]),
        decreases n - i,
    {
        if !is_ascii_hexdigit_exec(v[i]) {
            proof {
                assert(v@.skip(7)[i - 7] == v@[i as int]);
                assert(!is_ascii_hexdigit(v@.skip(7)[i - 7]));
            }
            return None;
        }
        push_char(&mut t, v[i]);
        proof {
            assert(t@ =~= v@.subrange(7, i + 1));
        }
        i += 1;
    }
    proof {
        assert(v@.skip(7) =~= v@.subrange(7, n as int));
        assert forall|k: int| 0 <= k < v@.skip(7).len() implies is_ascii_hexdigit(
            #[trigger] v@.skip(7)[k],
        ) by {
            assert(v@.skip(7)[k] == v@[k + 7]);
        }
    }
    Some(t)
}

/// The cache key of the session hint stored for a token digest.
pub open spec fn cache_key_text(digest: Seq<char>) -> Seq<char> {
    "session:"@ + digest
}

/// `format!("session:{digest}")`.
pub fn session_cache_key(digest: &str) -> (k: String)
    ensures
        k@ == cache_key_text(digest@),
{
    let mut k = String::from_str("session:");
    k.append(digest);
    k
}

/// Where a session is looked up: the digest of its token (the authoritative
/// store's key) and the cache key of its hint.
#[derive(Debug)]
pub struct SessionKey {
    pub digest: String,
    pub cache_key: String,
}

/// The digest under which the session of a request is stored, if the request
/// carries a token.
pub open spec fn session_lookup(h: Seq<char>) -> Option<Seq<char>> {
    match bearer_token(h) {
        Some(t) => Some(token_digest_text(t)),
        None => None,
    }
}

/// Where to look for the session of a request, from its `Authorization` header
/// value; `None` where the request carries no token.
pub fn session_for_header(header: Option<&str>) -> (r: Option<SessionKey>)
    ensures
        match header {
            None => r is None,
            Some(h) => match session_lookup(h@) {
                Some(d) => r matches Some(k) && k.digest@ == d && k.cache_key@ == cache_key_text(d),
                None => r is None,
            },
        },
{
    match bearer(header) {
        Some(token) => {
            let digest = token_digest(token.as_str());
            let cache_key = session_cache_key(digest.as_str());
            Some(SessionKey { digest, cache_key })
        },
        None => None,
    }
}

/// The session that a logout ends; a request without a token is refused.
pub fn logout_session(header: Option<&str>) -> (r: Result<SessionKey, HttpError>)
    ensures
        match header {
            None => r matches Err(e) && refuses(e, 401, "authentication required"@),
            Some(h) => match session_lookup(h@) {
                Some(d) => r matches Ok(k) && k.digest@ == d && k.cache_key@ == cache_key_text(d),
                None => r matches Err(e) && refuses(e, 401, "authentication required"@),
            },
        },
{
    match session_for_header(header) {
        Some(key) => Ok(key),
        None => Err(HttpError::unauthorized("authentication required")),
    }
}

/// A new session: the token handed to the client once, the digest stored in
/// its place, and the cache key of its hint.
#[derive(Debug)]
pub struct NewSession {
    pub token: String,
    pub digest: String,
    pub cache_key: String,
}

/// The session whose token is made of the UUIDs with bytes `b1` and `b2`.
pub fn session_from_uuids(b1: [u8; 16], b2: [u8; 16]) -> (s: NewSession)
    ensures
        s.token@ == hex_lower(b1@) + hex_lower(b2@),
        s.digest@ == token_digest_text(s.token@),
        s.cache_key@ == cache_key_text(s.digest@),
{
    let token = session_token_from(b1, b2);
    let digest = token_digest(token.as_str());
    let cache_key = session_cache_key(digest.as_str());
    NewSession { token, digest, cache_key }
}

/// Issues a new session, with a token drawn from two random UUIDs.
pub fn issue_session() -> (s: NewSession)
    ensures
        is_issued_token(s.token@),
        s.digest@ == token_digest_text(s.token@),
        s.cache_key@ == cache_key_text(s.digest@),
{
    let b1 = random_uuid_v4();
    let b2 = random_uuid_v4();
    let s = session_from_uuids(b1, b2);
    proof {
        assert(is_v4_uuid(b1@) && is_v4_uuid(b2@) && s.token@ == hex_lower(b1@) + hex_lower(b2@));
    }
    s
}

/// A header value carries the token `t` exactly when it is `Bearer ` followed by
/// `t`, and `t` is 64 characters each a digit or a letter `a`..`f` or `A`..`F`.
pub proof fn law_bearer_header_form(h: Seq<char>, t: Seq<char>)
    ensures
        bearer_token(h) == Some(t) <==> {
            &&& h == "Bearer "@ + t
            &&& t.len() == 64
            &&& forall|k: int|
                #![trigger t[k]]
                0 <= k < 64 ==> (0x30 <= t[k] as u32 <= 0x39 || 0x41 <= t[k] as u32 <= 0x46 || 0x61
                    <= t[k] as u32 <= 0x66)
        },
{
    reveal_strlit("Bearer ");
    if h == "Bearer "@ + t {
        assert(h.take(7) =~= "Bearer "@);
        assert(h.skip(7) =~= t);
    }
    if bearer_token(h) == Some(t) {
        assert(h =~= h.take(7) + h.skip(7));
    }
}

/// Every issued token is read back from the header `Bearer <token>`.
pub proof fn law_issued_token_is_bearer(token: Seq<char>)
    requires
        is_issued_token(token),
    ensures
        bearer_token("Bearer "@ + token) == Some(token),
{
    reveal_strlit("Bearer ");
    let (b1, b2) = choose|b1: Seq<u8>, b2: Seq<u8>|
        is_v4_uuid(b1) && is_v4_uuid(b2) && token == hex_lower(b1) + hex_lower(b2);
    lemma_hex_lower_digits(b1);
    lemma_hex_lower_digits(b2);
    let h = "Bearer "@ + token;
    assert(h.take(7) =~= "Bearer "@);
    assert(h.skip(7) =~= token);
    assert forall|i: int| 0 <= i < token.len() implies is_ascii_hexdigit(#[trigger] token[i]) by {
        if i < hex_lower(b1).len() {
            assert(token[i] == hex_lower(b1)[i]);
        } else {
            assert(token[i] == hex_lower(b2)[i - hex_lower(b1).len()]);
        }
    }
}

/// A request that presents an issued token with `Bearer <token>` is looked up
/// under the digest that was stored when the token was issued.
pub proof fn law_issued_session_is_found(token: Seq<char>)
    requires
        is_issued_token(token),
    ensures
        session_lookup("Bearer "@ + token) == Some(token_digest_text(token)),
{
    law_issued_token_is_bearer(token);
}

/// A user is required: refuses a request without one.
pub fn require_user(user: Option<User>) -> (r: Result<User, HttpError>)
    ensures
        match user {
            Some(u) => r == Ok::<User, HttpError>(u),
            None => r matches Err(e) && refuses(e, 401, "authentication required"@),
        },
{
    match user {
        Some(u) => Ok(u),
        None => Err(HttpError::unauthorized("authentication required")),
    }
}

/// An administrator is required: refuses every user whose role is not `admin`.
pub fn require_admin(user: &User) -> (r: Result<(), HttpError>)
    ensures
        r is Ok <==> user.role@ == "admin"@,
        r matches Err(e) ==> refuses(e, 403, "administrator required"@),
{
    let admin = String::from_str("admin");
    if user.role == admin {
        Ok(())
    } else {
        Err(HttpError::forbidden("administrator required"))
    }
}

// ---------------------------------------------------------------------------
// Accounts
// ---------------------------------------------------------------------------

/// The role of a new account: the first account administers the forum.
pub fn new_user_role(first_user: bool) -> (role: &'static str)
    ensures
        role@ == (if first_user {
            "admin"@
        } else {
            "member"@
        }),
{
    if first_user {
        "admin"
    } else {
        "member"
    }
}

/// What is stored for a new account.
#[derive(Debug)]
pub struct Registration {
    pub username: String,
    pub email: String,
    pub password_hash: String,
}

/// The message of the first check that a registration fails, the password
/// message where the user name and e-mail address pass.
pub open spec fn registration_refusal(input: RegisterInput) -> Seq<char> {
    if !is_valid_username(fold(input.username@)) {
        "invalid username"@
    } else if !is_valid_email(fold(input.email@)) {
        "invalid email"@
    } else {
        "password must contain 12 to 256 bytes"@
    }
}

/// Every check that a registration must pass.
pub open spec fn registration_valid(input: RegisterInput) -> bool {
    &&& is_valid_username(fold(input.username@))
    &&& is_valid_email(fold(input.email@))
    &&& is_acceptable_password(input.password@)
}

/// What a registration under the salt with bytes `salt` gives: the first
/// check it fails, or else the account with the Argon2 hash of its password (or
/// the password refusal where Argon2 fails).
pub open spec fn registration_outcome_with_salt(
    i: RegisterInput,
    salt: Seq<u8>,
    r: Result<Registration, HttpError>,
) -> bool {
    if !registration_valid(i) {
        r matches Err(e) && refuses(e, 422, registration_refusal(i))
    } else {
        match argon2_phc(encode_utf8(i.password@), b64_unpadded(salt)) {
            Some(h) => r matches Ok(reg) && reg.username@ == fold(i.username@) && reg.email@ == fold(
                i.email@,
            ) && reg.password_hash@ == h,
            None => r matches Err(e) && refuses(e, 422, registration_refusal(i)),
        }
    }
}

/// What a registration gives, whatever salt was drawn.
pub open spec fn registration_outcome(i: RegisterInput, r: Result<Registration, HttpError>) -> bool {
    &&& !registration_valid(i) ==> r is Err
    &&& r matches Err(e) ==> refuses(e, 422, registration_refusal(i))
    &&& (r is Err && registration_valid(i)) ==> exists|b: Seq<u8>|
        is_v4_uuid(b) && argon2_phc(encode_utf8(i.password@), b64_unpadded(b)) is None
    &&& r matches Ok(reg) ==> {
        &&& registration_valid(i)
        &&& reg.username@ == fold(i.username@)
        &&& reg.email@ == fold(i.email@)
        &&& is_password_hash_of(i.password@, reg.password_hash@)
    }
}

/// Checks a registration and hashes its password under the salt with bytes
/// `salt`.
pub fn prepare_registration_with_salt(input: &RegisterInput, salt: [u8; 16]) -> (r: Result<
    Registration,
    HttpError,
>)
    ensures
        registration_outcome_with_salt(*input, salt@, r),
{
    let username = match normalize_username(input.username.as_str()) {
        Ok(v) => v,
        Err(_) => return Err(HttpError::unprocessable("invalid username")),
    };
    let email = match normalize_email(input.email.as_str()) {
        Ok(v) => v,
        Err(_) => return Err(HttpError::unprocessable("invalid email")),
    };
    let password_hash = match hash_password_with_salt(input.password.as_str(), salt) {
        Ok(v) => v,
        Err(_) => return Err(HttpError::unprocessable("password must contain 12 to 256 bytes")),
    };
    Ok(Registration { username, email, password_hash })
}

/// Checks a registration and hashes its password under a fresh random salt.
pub fn prepare_registration(input: &RegisterInput) -> (r: Result<Registration, HttpError>)
    ensures
        registration_outcome(*input, r),
{
    let salt = random_uuid_v4();
    let r = prepare_registration_with_salt(input, salt);
    proof {
        assert(is_v4_uuid(salt@));
    }
    r
}

/// How a login name is looked up: trimmed and folded to lower case.
pub fn normalize_login(login: &str) -> (r: String)
    ensures
        r@ == fold(login@),
{
    fold_to_string(login)
}

/// Checks the password of the account found for a login; refuses where no
/// account was found or the password does not match its hash.
pub fn check_login(account: Option<&UserWithPassword>, password: &str) -> (r: Result<
    User,
    HttpError,
>)
    ensures
        match account {
            Some(a) => if argon2_accepts(encode_utf8(password@), a.password_hash@) {
                r matches Ok(u) && u.id@ == a.id@ && u.username@ == a.username@ && u.email@
                    == a.email@ && u.role@ == a.role@ && u.created_at@ == a.created_at@
            } else {
                r matches Err(e) && refuses(e, 401, "invalid credentials"@)
            },
            None => r matches Err(e) && refuses(e, 401, "invalid credentials"@),
        },
        account matches Some(a) && is_password_hash_of(password@, a.password_hash@) ==> r is Ok,
{
    match account {
        Some(a) => {
            if verify_password(password, a.password_hash.as_str()) {
                Ok(a.public())
            } else {
                Err(HttpError::unauthorized("invalid credentials"))
            }
        },
        None => Err(HttpError::unauthorized("invalid credentials")),
    }
}

/// Whether a database error code reports a unique-constraint violation.
pub fn is_unique_violation(code: Option<&str>) -> (b: bool)
    ensures
        b == (code matches Some(c) && c@ == "23505"@),
{
    match code {
        Some(c) => {
            let c = String::from_str(c);
            let expected = String::from_str("23505");
            c == expected
        },
        None => false,
    }
}

// ---------------------------------------------------------------------------
// Identifiers in paths and records
// ---------------------------------------------------------------------------

/// `t` is the hyphenated lower-case text of some UUID (as `new_id` writes).
pub open spec fn is_uuid_text(t: Seq<char>) -> bool {
    exists|b: Seq<u8>| b.len() == 16 && t == uuid_text(b)
}

/// What `Uuid::parse_str` makes of the UTF-8 bytes of a text: the 16 bytes of the
/// UUID, or `None` where the text is not a UUID.
pub uninterp spec fn uuid_parse(text: Seq<u8>) -> Option<Seq<u8>>;

/// `Uuid::parse_str`, taken as the parsed UUID's bytes. Its hyphenated
/// lower-case text (what `Uuid`'s `Display` writes) parses back to the same bytes.
#[verifier::external_body]
fn parse_uuid(text: &str) -> (r: Option<[u8; 16]>)
    ensures
        r matches Some(b) ==> uuid_parse(encode_utf8(text@)) == Some(b@),
        r is None ==> uuid_parse(encode_utf8(text@)) is None,
        is_uuid_text(text@) ==> r is Some,
        r matches Some(b) ==> (is_uuid_text(text@) ==> text@ == uuid_text(b@)),
{
    match Uuid::parse_str(text) {
        Ok(uuid) => Some(uuid.into_bytes()),
        Err(_) => None,
    }
}

/// Parses an identifier; refuses a text that is not a UUID with "not found".
pub fn parse_id(value: &str, message: &'static str) -> (r: Result<[u8; 16], HttpError>)
    ensures
        match uuid_parse(encode_utf8(value@)) {
            Some(b) => r matches Ok(x) && x@ == b,
            None => r matches Err(e) && e.status == 404 && e.message == message,
        },
        is_uuid_text(value@) ==> (r matches Ok(x) && value@ == uuid_text(x@)),
{
    match parse_uuid(value) {
        Some(b) => Ok(b),
        None => Err(HttpError::not_found(message)),
    }
}

// ---------------------------------------------------------------------------
// Categories, topics and posts
// ---------------------------------------------------------------------------

/// A category name after trimming: 2 to 80 characters.
pub open spec fn is_valid_category_name(v: Seq<char>) -> bool {
    2 <= v.len() <= 80
}

/// A category to create.
#[derive(Debug)]
pub struct CategoryDraft {
    pub name: String,
    pub slug: String,
}

/// Checks a new category's name and slug.
pub fn prepare_category(input: &CategoryInput) -> (r: Result<CategoryDraft, HttpError>)
    ensures
        !is_valid_category_name(trim(input.name@)) ==> (r matches Err(e) && refuses(
            e,
            422,
            "invalid category name"@,
        )),
        is_valid_category_name(trim(input.name@)) && !is_valid_slug(fold(input.slug@)) ==> (
        r matches Err(e) && refuses(e, 422, "invalid category slug"@)),
        is_valid_category_name(trim(input.name@)) && is_valid_slug(fold(input.slug@)) ==> (
        r matches Ok(d) && d.name@ == trim(input.name@) && d.slug@ == fold(input.slug@)),
{
    let name = trim_to_string(input.name.as_str());
    let n = chars_of(name.as_str()).len();
    if n < 2 || n > 80 {
        return Err(HttpError::unprocessable("invalid category name"));
    }
    let slug = match normalize_slug(input.slug.as_str()) {
        Ok(v) => v,
        Err(_) => return Err(HttpError::unprocessable("invalid category slug")),
    };
    Ok(CategoryDraft { name, slug })
}

/// A topic to create, with its first post.
#[derive(Debug)]
pub struct TopicDraft {
    pub title: String,
    pub body: String,
}

/// Checks a new topic's title and first post.
pub fn prepare_topic(input: &TopicInput) -> (r: Result<TopicDraft, HttpError>)
    ensures
        !is_valid_title(trim(input.title@)) ==> (r matches Err(e) && refuses(
            e,
            422,
            "invalid title"@,
        )),
        is_valid_title(trim(input.title@)) && !is_valid_body(trim(input.body@)) ==> (
        r matches Err(e) && refuses(e, 422, "invalid body"@)),
        is_valid_title(trim(input.title@)) && is_valid_body(trim(input.body@)) ==> (r matches Ok(d)
            && d.title@ == trim(input.title@) && d.body@ == trim(input.body@)),
{
    let title = match validate_title(input.title.as_str()) {
        Ok(v) => v,
        Err(_) => return Err(HttpError::unprocessable("invalid title")),
    };
    let body = match validate_body(input.body.as_str()) {
        Ok(v) => v,
        Err(_) => return Err(HttpError::unprocessable("invalid body")),
    };
    Ok(TopicDraft { title, body })
}

/// Checks a reply's body.
pub fn prepare_post(input: &PostInput) -> (r: Result<String, HttpError>)
    ensures
        is_valid_body(trim(input.body@)) ==> (r matches Ok(b) && b@ == trim(input.body@)),
        !is_valid_body(trim(input.body@)) ==> (r matches Err(e) && refuses(e, 422, "invalid body"@)),
{
    match validate_body(input.body.as_str()) {
        Ok(v) => Ok(v),
        Err(_) => Err(HttpError::unprocessable("invalid body")),
    }
}

// ---------------------------------------------------------------------------
// Handler steps: each takes what the handler has read so far and gives either
// what the next storage step needs or the refusal, checking in the order in
// which the handler checks
// ---------------------------------------------------------------------------

/// `r` is refused as `refusal` says, and succeeds where `refusal` is `None`.
pub open spec fn outcome<T>(r: Result<T, HttpError>, refusal: Option<(u16, Seq<char>)>) -> bool {
    match refusal {
        Some((status, message)) => r matches Err(e) && refuses(e, status, message),
        None => r is Ok,
    }
}

/// A request body, where it was read as JSON (`None` where it was not).
pub fn read_payload<T>(input: Option<T>) -> (r: Result<T, HttpError>)
    ensures
        match input {
            Some(v) => r == Ok::<T, HttpError>(v),
            None => r matches Err(e) && refuses(e, 400, "invalid JSON"@),
        },
{
    match input {
        Some(v) => Ok(v),
        None => Err(HttpError::bad_request("invalid JSON")),
    }
}

/// Registration: the body, then the checks of `prepare_registration`.
pub fn begin_registration(input: Option<RegisterInput>) -> (r: Result<Registration, HttpError>)
    ensures
        match input {
            None => r matches Err(e) && refuses(e, 400, "invalid JSON"@),
            Some(i) => registration_outcome(i, r),
        },
{
    let input = read_payload(input)?;
    prepare_registration(&input)
}

/// The reply to a failed insert of a new account: a unique-constraint violation
/// means the user name or e-mail address is taken; anything else is a failure
/// of the server.
pub fn user_insert_failure(code: Option<&str>) -> (e: HttpError)
    ensures
        (code matches Some(c) && c@ == "23505"@) ==> refuses(
            e,
            409,
            "username or email already exists"@,
        ),
        !(code matches Some(c) && c@ == "23505"@) ==> refuses(e, 500, "internal server error"@),
{
    if is_unique_violation(code) {
        HttpError::conflict("username or email already exists")
    } else {
        HttpError::internal()
    }
}

/// What a login looks up: the folded login name, and the password to check.
#[derive(Debug)]
pub struct LoginRequest {
    pub login: String,
    pub password: String,
}

/// Login: the body, then the login name folded for the lookup.
pub fn begin_login(input: Option<LoginInput>) -> (r: Result<LoginRequest, HttpError>)
    ensures
        match input {
            None => r matches Err(e) && refuses(e, 400, "invalid JSON"@),
            Some(i) => r matches Ok(l) && l.login@ == fold(i.login@) && l.password == i.password,
        },
{
    let input = read_payload(input)?;
    let login = normalize_login(input.login.as_str());
    Ok(LoginRequest { login, password: input.password })
}

/// The first refusal of a new category: no user, a user who is not an
/// administrator, no body, a bad name, a bad slug.
pub open spec fn category_refusal(user: Option<User>, input: Option<CategoryInput>) -> Option<
    (u16, Seq<char>),
> {
    match user {
        None => Some((401, "authentication required"@)),
        Some(u) => if u.role@ != "admin"@ {
            Some((403, "administrator required"@))
        } else {
            match input {
                None => Some((400, "invalid JSON"@)),
                Some(i) => if !is_valid_category_name(trim(i.name@)) {
                    Some((422, "invalid category name"@))
                } else if !is_valid_slug(fold(i.slug@)) {
                    Some((422, "invalid category slug"@))
                } else {
                    None
                },
            }
        },
    }
}

/// A category to insert, with the user who creates it.
#[derive(Debug)]
pub struct NewCategory {
    pub creator: User,
    pub name: String,
    pub slug: String,
}

/// New category: the user, the administrator role, the body, the name, the slug.
pub fn begin_category(user: Option<User>, input: Option<CategoryInput>) -> (r: Result<
    NewCategory,
    HttpError,
>)
    ensures
        outcome(r, category_refusal(user, input)),
        r matches Ok(c) ==> (user == Some(c.creator) && (input matches Some(i) && c.name@ == trim(
            i.name@,
        ) && c.slug@ == fold(i.slug@))),
{
    let creator = require_user(user)?;
    require_admin(&creator)?;
    let input = read_payload(input)?;
    let draft = prepare_category(&input)?;
    Ok(NewCategory { creator, name: draft.name, slug: draft.slug })
}

/// The reply to a failed insert of a category: a unique-constraint violation
/// means the slug is taken; anything else is a failure of the server.
pub fn category_insert_failure(code: Option<&str>) -> (e: HttpError)
    ensures
        (code matches Some(c) && c@ == "23505"@) ==> refuses(e, 409, "category slug already exists"@),
        !(code matches Some(c) && c@ == "23505"@) ==> refuses(e, 500, "internal server error"@),
{
    if is_unique_violation(code) {
        HttpError::conflict("category slug already exists")
    } else {
        HttpError::internal()
    }
}

/// The first refusal of a new topic: no user, no body, a bad title, a bad first
/// post, a category identifier that is not a UUID.
pub open spec fn topic_refusal(user: Option<User>, input: Option<TopicInput>) -> Option<
    (u16, Seq<char>),
> {
    match user {
        None => Some((401, "authentication required"@)),
        Some(_) => match input {
            None => Some((400, "invalid JSON"@)),
            Some(i) => if !is_valid_title(trim(i.title@)) {
                Some((422, "invalid title"@))
            } else if !is_valid_body(trim(i.body@)) {
                Some((422, "invalid body"@))
            } else if uuid_parse(encode_utf8(i.category_id@)) is None {
                Some((404, "category not found"@))
            } else {
                None
            },
        },
    }
}

/// A topic to insert: its author, its category, its title and its first post.
#[derive(Debug)]
pub struct NewTopic {
    pub author: User,
    pub category_id: [u8; 16],
    pub title: String,
    pub body: String,
}

/// New topic: the user, the body, the title, the first post, the category's
/// identifier.
pub fn begin_topic(user: Option<User>, input: Option<TopicInput>) -> (r: Result<
    NewTopic,
    HttpError,
>)
    ensures
        outcome(r, topic_refusal(user, input)),
        r matches Ok(t) ==> (user == Some(t.author) && (input matches Some(i) && t.title@ == trim(
            i.title@,
        ) && t.body@ == trim(i.body@) && uuid_parse(encode_utf8(i.category_id@)) == Some(
            t.category_id@,
        ))),
{
    let author = require_user(user)?;
    let input = read_payload(input)?;
    let draft = prepare_topic(&input)?;
    let category_id = parse_id(input.category_id.as_str(), "category not found")?;
    Ok(NewTopic { author, category_id, title: draft.title, body: draft.body })
}

/// A topic is written only into a category that exists.
pub fn require_category(exists: bool) -> (r: Result<(), HttpError>)
    ensures
        r is Ok <==> exists,
        r matches Err(e) ==> refuses(e, 404, "category not found"@),
{
    if exists {
        Ok(())
    } else {
        Err(HttpError::not_found("category not found"))
    }
}

/// The first refusal of a reply: no user, a topic identifier that is not a UUID,
/// no body, a bad body.
pub open spec fn post_refusal(user: Option<User>, topic_id: Seq<char>, input: Option<PostInput>) -> Option<
    (u16, Seq<char>),
> {
    match user {
        None => Some((401, "authentication required"@)),
        Some(_) => if uuid_parse(encode_utf8(topic_id)) is None {
            Some((404, "topic not found"@))
        } else {
            match input {
                None => Some((400, "invalid JSON"@)),
                Some(i) => if !is_valid_body(trim(i.body@)) {
                    Some((422, "invalid body"@))
                } else {
                    None
                },
            }
        },
    }
}

/// A reply to insert: its author, its topic and its body.
#[derive(Debug)]
pub struct NewPost {
    pub author: User,
    pub topic_id: [u8; 16],
    pub body: String,
}

/// New reply: the user, the topic's identifier, the body.
pub fn begin_post(user: Option<User>, topic_id: &str, input: Option<PostInput>) -> (r: Result<
    NewPost,
    HttpError,
>)
    ensures
        outcome(r, post_refusal(user, topic_id@, input)),
        r matches Ok(p) ==> (user == Some(p.author) && uuid_parse(encode_utf8(topic_id@)) == Some(
            p.topic_id@,
        ) && (input matches Some(i) && p.body@ == trim(i.body@))),
{
    let author = require_user(user)?;
    let topic_id = parse_id(topic_id, "topic not found")?;
    let input = read_payload(input)?;
    let body = prepare_post(&input)?;
    Ok(NewPost { author, topic_id, body })
}

/// A reply is written only into a topic that exists.
pub fn require_topic(exists: bool) -> (r: Result<(), HttpError>)
    ensures
        r is Ok <==> exists,
        r matches Err(e) ==> refuses(e, 404, "topic not found"@),
{
    if exists {
        Ok(())
    } else {
        Err(HttpError::not_found("topic not found"))
    }
}

/// The topic that was looked up, or "topic not found".
pub fn topic_found(topic: Option<Topic>) -> (r: Result<Topic, HttpError>)
    ensures
        match topic {
            Some(t) => r == Ok::<Topic, HttpError>(t),
            None => r matches Err(e) && refuses(e, 404, "topic not found"@),
        },
{
    match topic {
        Some(t) => Ok(t),
        None => Err(HttpError::not_found("topic not found")),
    }
}

} // verus!
