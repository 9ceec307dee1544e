//! Identifiers, session tokens, token digests and password hashing.
//!
//! Random identifiers come from `uuid`, digests from `sha2` and password hashes
//! from `argon2`; the text built around them is computed and proved here.
use argon2::password_hash::{PasswordHash, PasswordHasher, PasswordVerifier, Salt, SaltString};
use argon2::Argon2;
use sha2::{Digest, Sha256};
use uuid::Uuid;
use vstd::prelude::*;
use vstd::utf8::encode_utf8;

use crate::text::{
    hex_lower, hex_lower_exec, is_ascii_hexdigit, law_hex_lower_injective, law_hex_lower_layout,
    lemma_hex_lower_digits,
};
use crate::validation::{utf8_len, DomainError};

verus! {

broadcast use {vstd::string::group_string_axioms, vstd::array::group_array_axioms};

// ---------------------------------------------------------------------------
// Identifiers and session tokens
// ---------------------------------------------------------------------------

/// The bytes of a random (version 4, RFC 4122 variant) UUID: the high nibble of
/// byte 6 is 4 and the two high bits of byte 8 are `10`.
pub open spec fn is_v4_uuid(b: Seq<u8>) -> bool {
    &&& b.len() == 16
    &&& b[6] / 16 == 4
    &&& b[8] / 64 == 2
}

/// The hyphenated text of a UUID: 8-4-4-4-12 lower-case hexadecimal digits.
pub open spec fn uuid_text(b: Seq<u8>) -> Seq<char> {
    hex_lower(b.subrange(0, 4)) + seq!['-'] + hex_lower(b.subrange(4, 6)) + seq!['-'] + hex_lower(
        b.subrange(6, 8),
    ) + seq!['-'] + hex_lower(b.subrange(8, 10)) + seq!['-'] + hex_lower(b.subrange(10, 16))
}

/// The hyphenated text of a UUID holds 36 characters: hyphens at positions 8,
/// 13, 18 and 23 and lower-case hexadecimal digits everywhere else.
pub proof fn law_uuid_text_shape(b: Seq<u8>)
    requires
        b.len() == 16,
    ensures
        uuid_text(b).len() == 36,
        uuid_text(b)[8] == '-' && uuid_text(b)[13] == '-' && uuid_text(b)[18] == '-'
            && uuid_text(b)[23] == '-',
        forall|k: int|
            0 <= k < 36 && k != 8 && k != 13 && k != 18 && k != 23 ==> is_ascii_hexdigit(
                #[trigger] uuid_text(b)[k],
            ),
{
    let p0 = hex_lower(b.subrange(0, 4));
    let p1 = hex_lower(b.subrange(4, 6));
    let p2 = hex_lower(b.subrange(6, 8));
    let p3 = hex_lower(b.subrange(8, 10));
    let p4 = hex_lower(b.subrange(10, 16));
    law_hex_lower_layout(b.subrange(0, 4), Seq::empty());
    law_hex_lower_layout(b.subrange(4, 6), Seq::empty());
    law_hex_lower_layout(b.subrange(6, 8), Seq::empty());
    law_hex_lower_layout(b.subrange(8, 10), Seq::empty());
    law_hex_lower_layout(b.subrange(10, 16), Seq::empty());
    lemma_hex_lower_digits(b.subrange(0, 4));
    lemma_hex_lower_digits(b.subrange(4, 6));
    lemma_hex_lower_digits(b.subrange(6, 8));
    lemma_hex_lower_digits(b.subrange(8, 10));
    lemma_hex_lower_digits(b.subrange(10, 16));
    let t = uuid_text(b);
    assert(t =~= p0 + seq!['-'] + p1 + seq!['-'] + p2 + seq!['-'] + p3 + seq!['-'] + p4);
    assert forall|k: int| 0 <= k < 36 && k != 8 && k != 13 && k != 18 && k != 23 implies is_ascii_hexdigit(
        #[trigger] t[k],
    ) by {
        if k < 8 {
            assert(t[k] == p0[k]);
        } else if k < 13 {
            assert(t[k] == p1[k - 9]);
        } else if k < 18 {
            assert(t[k] == p2[k - 14]);
        } else if k < 23 {
            assert(t[k] == p3[k - 19]);
        } else {
            assert(t[k] == p4[k - 24]);
        }
    }
}

/// The form of every session token: the simple (unhyphenated) texts of two
/// random UUIDs, one after the other.
pub open spec fn is_issued_token(t: Seq<char>) -> bool {
    exists|b1: Seq<u8>, b2: Seq<u8>|
        is_v4_uuid(b1) && is_v4_uuid(b2) && t == hex_lower(b1) + hex_lower(b2)
}

/// `Uuid::new_v4`, taken as its bytes. The bytes are random; the crate sets the
/// version and variant bits (`rng::u128() & ... | 0x40008000000000000000`).
#[verifier::external_body]
pub(crate) fn random_uuid_v4() -> (b: [u8; 16])
    ensures
        is_v4_uuid(b@),
{
    Uuid::new_v4().into_bytes()
}

/// The `Display` text of `Uuid::simple` for the UUID with bytes `b`: 32
/// lower-case hexadecimal digits, two per byte, in byte order.
#[verifier::external_body]
fn uuid_simple_text(b: [u8; 16]) -> (t: String)
    ensures
        t@ == hex_lower(b@),
{
    Uuid::from_bytes(b).simple().to_string()
}

/// The `Display` text of the UUID with bytes `b`: its hyphenated lower-case form.
#[verifier::external_body]
fn uuid_hyphenated_text(b: [u8; 16]) -> (t: String)
    ensures
        t@ == uuid_text(b@),
{
    Uuid::from_bytes(b).to_string()
}

/// The identifier for the UUID with bytes `b`: its hyphenated text.
pub fn id_from_uuid(b: [u8; 16]) -> (id: String)
    ensures
        id@ == uuid_text(b@),
{
    uuid_hyphenated_text(b)
}

/// A fresh identifier: the hyphenated text of a random UUID.
pub fn new_id() -> (id: String)
    ensures
        exists|b: Seq<u8>| is_v4_uuid(b) && id@ == uuid_text(b),
{
    let b = random_uuid_v4();
    id_from_uuid(b)
}

/// The session token made of the UUIDs with bytes `b1` and `b2`: their simple
/// texts, one after the other.
pub fn session_token_from(b1: [u8; 16], b2: [u8; 16]) -> (t: String)
    ensures
        t@ == hex_lower(b1@) + hex_lower(b2@),
{
    let mut t = uuid_simple_text(b1);
    let second = uuid_simple_text(b2);
    t.append(second.as_str());
    t
}

/// A fresh session token: 64 lower-case hexadecimal digits drawn from two random
/// UUIDs.
pub fn new_session_token() -> (t: String)
    ensures
        is_issued_token(t@),
{
    let b1 = random_uuid_v4();
    let b2 = random_uuid_v4();
    let t = session_token_from(b1, b2);
    proof {
        assert(is_v4_uuid(b1@) && is_v4_uuid(b2@) && t@ == hex_lower(b1@) + hex_lower(b2@));
    }
    t
}

// ---------------------------------------------------------------------------
// Token digests
// ---------------------------------------------------------------------------

/// The SHA-256 digest of `data` (what `sha2::Sha256::digest` returns).
pub uninterp spec fn sha256(data: Seq<u8>) -> Seq<u8>;

/// `Sha256::digest`: the 32-byte SHA-256 digest of `data`.
#[verifier::external_body]
fn sha256_digest(data: &[u8]) -> (d: [u8; 32])
    ensures
        d@ == sha256(data@),
{
    Sha256::digest(data).into()
}

/// What is stored in place of a session token: the lower-case hexadecimal text
/// of the SHA-256 digest of the token's UTF-8 bytes.
pub open spec fn token_digest_text(token: Seq<char>) -> Seq<char> {
    hex_lower(sha256(encode_utf8(token)))
}

/// The digest reads the whole token: two tokens get the same digest exactly
/// when SHA-256 gives the same value on their complete UTF-8 encodings, and two
/// different tokens always hand SHA-256 two different inputs.
pub proof fn law_token_digest_reads_every_byte(t1: Seq<char>, t2: Seq<char>)
    ensures
        token_digest_text(t1) == token_digest_text(t2) <==> sha256(encode_utf8(t1)) == sha256(
            encode_utf8(t2),
        ),
        t1 != t2 ==> encode_utf8(t1) != encode_utf8(t2),
{
    law_hex_lower_injective(sha256(encode_utf8(t1)), sha256(encode_utf8(t2)));
    vstd::utf8::encode_utf8_decode_utf8(t1);
    vstd::utf8::encode_utf8_decode_utf8(t2);
}

/// The digest under which a session token is stored.
pub fn token_digest(token: &str) -> (d: String)
    ensures
        d@ == token_digest_text(token@),
        d@.len() == 64,
{
    let digest = sha256_digest(token.as_bytes());
    hex_lower_exec(digest.as_slice())
}

// ---------------------------------------------------------------------------
// Passwords
// ---------------------------------------------------------------------------

/// The character of the standard Base64 alphabet for `v`, `0 <= v < 64`.
pub open spec fn b64_char(v: int) -> char {
    if v < 26 {
        (65 + v) as char
    } else if v < 52 {
        (71 + v) as char
    } else if v < 62 {
        (v - 4) as char
    } else if v == 62 {
        '+'
    } else {
        '/'
    }
}

/// Standard Base64 without padding (the PHC "B64" encoding of a salt).
pub open spec fn b64_unpadded(b: Seq<u8>) -> Seq<char>
    decreases b.len(),
{
    if b.len() == 0 {
        Seq::empty()
    } else if b.len() == 1 {
        seq![b64_char(b[0] as int / 4), b64_char((b[0] as int % 4) * 16)]
    } else if b.len() == 2 {
        seq![
            b64_char(b[0] as int / 4),
            b64_char((b[0] as int % 4) * 16 + b[1] as int / 16),
            b64_char((b[1] as int % 16) * 4),
        ]
    } else {
        seq![
            b64_char(b[0] as int / 4),
            b64_char((b[0] as int % 4) * 16 + b[1] as int / 16),
            b64_char((b[1] as int % 16) * 4 + b[2] as int / 64),
            b64_char(b[2] as int % 64),
        ] + b64_unpadded(b.skip(3))
    }
}

/// `SaltString::encode_b64`, taken as the salt's text. It fails only when the
/// text would exceed the 64 characters a salt may hold (more than 48 bytes).
#[verifier::external_body]
fn encode_salt(bytes: &[u8]) -> (r: Option<String>)
    ensures
        r is Some <==> bytes@.len() <= 48,
        r matches Some(s) ==> s@ == b64_unpadded(bytes@),
{
    match SaltString::encode_b64(bytes) {
        Ok(salt) => Some(salt.as_str().to_owned()),
        Err(_) => None,
    }
}

/// The PHC string that `Argon2::default().hash_password(password, salt)` renders
/// for the salt with B64 text `salt`, or `None` where the text is not a valid salt
/// or the call fails (a function of the password and the salt).
pub uninterp spec fn argon2_phc(password: Seq<u8>, salt: Seq<char>) -> Option<Seq<char>>;

/// `PasswordHasher::hash_password` of `Argon2::default()`, with the salt given by
/// its B64 text and the resulting `PasswordHash` rendered as its PHC string.
#[verifier::external_body]
fn argon2_hash(password: &[u8], salt: &str) -> (r: Option<String>)
    ensures
        match r {
            Some(h) => argon2_phc(password@, salt@) == Some(h@),
            None => argon2_phc(password@, salt@) is None,
        },
{
    let salt = match Salt::try_from(salt) {
        Ok(salt) => salt,
        Err(_) => return None,
    };
    match Argon2::default().hash_password(password, salt) {
        Ok(hash) => Some(hash.to_string()),
        Err(_) => None,
    }
}

/// Whether `Argon2::default().verify_password(password, &hash)` succeeds for the
/// `PasswordHash` parsed from `phc` (false where `phc` does not parse).
pub uninterp spec fn argon2_accepts(password: Seq<u8>, phc: Seq<char>) -> bool;

/// `PasswordVerifier::verify_password` of `Argon2::default()`, with the hash
/// given by its PHC string (parsed with `PasswordHash::new`). The verifier
/// recomputes the hash with the salt and parameters that the PHC string holds, so
/// it accepts every PHC string that `argon2_hash` produced for the same password.
/// `PasswordHash::new` refuses the empty text and every text whose first field
/// (before the first `$`) is not empty, so a text that does not start with `$` is
/// never accepted.
#[verifier::external_body]
fn argon2_verify(password: &[u8], phc: &str) -> (ok: bool)
    ensures
        ok == argon2_accepts(password@, phc@),
        (exists|salt: Seq<char>| argon2_phc(password@, salt) == Some(phc@)) ==> ok,
        phc@.len() == 0 || phc@[0] != '$' ==> !ok,
{
    match PasswordHash::new(phc) {
        Ok(hash) => Argon2::default().verify_password(password, &hash).is_ok(),
        Err(_) => false,
    }
}

/// `h` is an Argon2 PHC string of `password` under the salt text of some random
/// UUID.
pub open spec fn is_password_hash_of(password: Seq<char>, h: Seq<char>) -> bool {
    exists|b: Seq<u8>|
        is_v4_uuid(b) && argon2_phc(encode_utf8(password), b64_unpadded(b)) == Some(h)
}

/// A password is accepted for hashing when its UTF-8 encoding takes 12 to 256
/// bytes.
pub open spec fn is_acceptable_password(password: Seq<char>) -> bool {
    12 <= utf8_len(password) <= 256
}

/// Hashes a password with Argon2 (default parameters) under the salt whose
/// bytes are `salt`.
pub fn hash_password_with_salt(password: &str, salt: [u8; 16]) -> (r: Result<
    String,
    DomainError,
>)
    ensures
        !is_acceptable_password(password@) ==> r == Err::<String, DomainError>(
            DomainError::InvalidPassword,
        ),
        is_acceptable_password(password@) ==> match argon2_phc(
            encode_utf8(password@),
            b64_unpadded(salt@),
        ) {
            Some(h) => r matches Ok(x) && x@ == h,
            None => r == Err::<String, DomainError>(DomainError::Crypto),
        },
{
    let bytes = password.as_bytes();
    if bytes.len() < 12 || bytes.len() > 256 {
        return Err(DomainError::InvalidPassword);
    }
    let salt = match encode_salt(salt.as_slice()) {
        Some(salt) => salt,
        None => return Err(DomainError::Crypto),
    };
    match argon2_hash(bytes, salt.as_str()) {
        Some(h) => Ok(h),
        None => Err(DomainError::Crypto),
    }
}

/// Hashes a password with Argon2 (default parameters) under a fresh random salt.
pub fn hash_password(password: &str) -> (r: Result<String, DomainError>)
    ensures
        r == Err::<String, DomainError>(DomainError::InvalidPassword) <==> !is_acceptable_password(
            password@,
        ),
        r matches Ok(h) ==> is_password_hash_of(password@, h@),
        r matches Err(e) ==> e == DomainError::InvalidPassword || e == DomainError::Crypto,
        r == Err::<String, DomainError>(DomainError::Crypto) ==> exists|b: Seq<u8>|
            is_v4_uuid(b) && argon2_phc(encode_utf8(password@), b64_unpadded(b)) is None,
{
    let bytes = password.as_bytes();
    if bytes.len() < 12 || bytes.len() > 256 {
        return Err(DomainError::InvalidPassword);
    }
    let random = random_uuid_v4();
    let r = hash_password_with_salt(password, random);
    proof {
        assert(is_v4_uuid(random@));
    }
    r
}

/// Checks a password against a stored PHC string.
pub fn verify_password(password: &str, encoded: &str) -> (ok: bool)
    ensures
        ok == argon2_accepts(encode_utf8(password@), encoded@),
        is_password_hash_of(password@, encoded@) ==> ok,
        encoded@.len() == 0 || encoded@[0] != '$' ==> !ok,
{
    argon2_verify(password.as_bytes(), encoded)
}

} // verus!
