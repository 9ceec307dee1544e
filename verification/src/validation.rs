//! Input normalization and validation for user names, e-mail addresses,
//! category slugs, topic titles and post bodies.
use vstd::prelude::*;
use vstd::utf8::encode_utf8;

use crate::text::{
    chars_of, fold, fold_to_string, is_ascii_alphanumeric, is_ascii_alphanumeric_exec,
    is_ascii_digit, is_ascii_digit_exec, is_ascii_lowercase, is_ascii_lowercase_exec,
    is_ascii_uppercase, is_white_space, law_ascii_lower_code_points,
    law_trim_keeps_printable_ends, law_white_space_code_points, lemma_fold_idempotent,
    lemma_same_code_point, lemma_trim_edges, lemma_trim_fixed, lemma_trim_idempotent, lower, trim, trim_to_string,
};

verus! {

broadcast use vstd::string::group_string_axioms;

/// Why a value was refused, or why a cryptographic step failed.
#[derive(Debug, Clone, Copy, PartialEq, Eq, Structural)]
pub enum DomainError {
    InvalidUsername,
    InvalidEmail,
    InvalidSlug,
    InvalidPassword,
    InvalidTitle,
    InvalidBody,
    Crypto,
}

/// The text that describes each error.
pub open spec fn domain_error_message(e: DomainError) -> Seq<char> {
    match e {
        DomainError::InvalidUsername => "invalid username"@,
        DomainError::InvalidEmail => "invalid email"@,
        DomainError::InvalidSlug => "invalid slug"@,
        DomainError::InvalidPassword => "invalid password"@,
        DomainError::InvalidTitle => "invalid title"@,
        DomainError::InvalidBody => "invalid body"@,
        DomainError::Crypto => "cryptographic operation failed"@,
    }
}

impl DomainError {
    /// The text that describes this error.
    pub fn message(&self) -> (m: &'static str)
        ensures
            m@ == domain_error_message(*self),
    {
        match self {
            DomainError::InvalidUsername => "invalid username",
            DomainError::InvalidEmail => "invalid email",
            DomainError::InvalidSlug => "invalid slug",
            DomainError::InvalidPassword => "invalid password",
            DomainError::InvalidTitle => "invalid title",
            DomainError::InvalidBody => "invalid body",
            DomainError::Crypto => "cryptographic operation failed",
        }
    }
}

// ---------------------------------------------------------------------------
// User names
// ---------------------------------------------------------------------------

pub open spec fn is_username_char(c: char) -> bool {
    is_ascii_alphanumeric(c) || c == '_' || c == '-'
}

/// A user name after folding: 3 to 32 characters from `a-z0-9_-` (no upper case
/// remains after folding), the first one a letter or digit.
pub open spec fn is_valid_username(v: Seq<char>) -> bool {
    &&& 3 <= v.len() <= 32
    &&& forall|i: int| 0 <= i < v.len() ==> is_username_char(#[trigger] v[i])
    &&& is_ascii_alphanumeric(v[0])
}

/// Trims `value`, folds ASCII letters to lower case, and accepts the result if it
/// is a valid user name.
pub fn normalize_username(value: &str) -> (r: Result<String, DomainError>)
    ensures
        r is Ok <==> is_valid_username(fold(value@)),
        r matches Ok(v) ==> v@ == fold(value@),
        r matches Err(e) ==> e == DomainError::InvalidUsername,
{
    let folded = fold_to_string(value);
    let v = chars_of(folded.as_str());
    let n = v.len();
    if n < 3 || n > 32 {
        return Err(DomainError::InvalidUsername);
    }
    let mut i: usize = 0;
    while i < n
        invariant
            i <= n,
            n == v@.len(),
            v@ == fold(value@),
            forall|k: int| 0 <= k < i ==> is_username_char(#[trigger] v@[k]),
        decreases n - i,
    {
        let c = v[i];
        if !(is_ascii_alphanumeric_exec(c) || c == '_' || c == '-') {
            proof {
                assert(!is_username_char(v@[i as int]));
            }
            return Err(DomainError::InvalidUsername);
        }
        i += 1;
    }
    if !is_ascii_alphanumeric_exec(v[0]) {
        return Err(DomainError::InvalidUsername);
    }
    Ok(folded)
}

// ---------------------------------------------------------------------------
// E-mail addresses
// ---------------------------------------------------------------------------

/// The number of bytes that the UTF-8 encoding of `v` takes.
pub open spec fn utf8_len(v: Seq<char>) -> nat {
    encode_utf8(v).len()
}

/// `i` is the position of the first `@` of `v`.
pub open spec fn is_first_at(v: Seq<char>, i: int) -> bool {
    &&& 0 <= i < v.len()
    &&& v[i] == '@'
    &&& forall|j: int| 0 <= j < i ==> v[j] != '@'
}

/// `v` holds a `.` after position `i`.
pub open spec fn has_dot_after(v: Seq<char>, i: int) -> bool {
    exists|p: int| i < p < v.len() && #[trigger] v[p] == '.'
}

/// An e-mail address after folding: split at its first `@`, both parts are
/// non-empty, the part after it holds a `.`, and the whole takes at most 254
/// bytes in UTF-8.
pub open spec fn is_valid_email(v: Seq<char>) -> bool {
    &&& exists|i: int|
        #![trigger is_first_at(v, i)]
        is_first_at(v, i) && 0 < i && i + 1 < v.len() && has_dot_after(v, i)
    &&& utf8_len(v) <= 254
}

/// Trims `value`, folds ASCII letters to lower case, and accepts the result if it
/// is a valid e-mail address.
pub fn normalize_email(value: &str) -> (r: Result<String, DomainError>)
    ensures
        r is Ok <==> is_valid_email(fold(value@)),
        r matches Ok(v) ==> v@ == fold(value@),
        r matches Err(e) ==> e == DomainError::InvalidEmail,
{
    let folded = fold_to_string(value);
    let v = chars_of(folded.as_str());
    let ghost w = fold(value@);
    let n = v.len();
    let mut i: usize = 0;
    while i < n && v[i] != '@'
        invariant
            i <= n,
            n == v@.len(),
            v@ == w,
            forall|j: int| 0 <= j < i ==> v@[j] != '@',
        decreases n - i,
    {
        i += 1;
    }
    if i == n {
        proof {
            assert forall|k: int| !is_first_at(w, k) by {
                if 0 <= k < w.len() {
                    assert(w[k] != '@');
                }
            }
        }
        return Err(DomainError::InvalidEmail);
    }
    assert(is_first_at(w, i as int));
    proof {
        assert forall|k: int| #[trigger] is_first_at(w, k) implies k == i by {
            if k < i {
                assert(w[k] != '@');
            } else if k > i {
                assert(w[i as int] != '@');
            }
        }
    }
    if i == 0 || i + 1 >= n {
        return Err(DomainError::InvalidEmail);
    }
    let mut k: usize = i + 1;
    let mut dot = false;
    while k < n
        invariant
            i + 1 <= k <= n,
            n == v@.len(),
            v@ == w,
            dot <==> exists|p: int| i < p < k && #[trigger] v@[p] == '.',
        decreases n - k,
    {
        if v[k] == '.' {
            dot = true;
        }
        k += 1;
    }
    if !dot {
        proof {
            assert(!has_dot_after(w, i as int));
        }
        return Err(DomainError::InvalidEmail);
    }
    if folded.as_str().as_bytes().len() > 254 {
        return Err(DomainError::InvalidEmail);
    }
    proof {
        assert(has_dot_after(w, i as int));
        assert(is_first_at(w, i as int) && 0 < i && i + 1 < w.len() && has_dot_after(w, i as int));
    }
    Ok(folded)
}

// ---------------------------------------------------------------------------
// Slugs
// ---------------------------------------------------------------------------

pub open spec fn is_slug_char(c: char) -> bool {
    is_ascii_lowercase(c) || is_ascii_digit(c) || c == '-'
}

/// A slug after folding: 2 to 80 characters from `a-z0-9-`, neither starting nor
/// ending with `-`, with no `--` in it.
pub open spec fn is_valid_slug(v: Seq<char>) -> bool {
    &&& 2 <= v.len() <= 80
    &&& forall|i: int| 0 <= i < v.len() ==> is_slug_char(#[trigger] v[i])
    &&& v[0] != '-'
    &&& v.last() != '-'
    &&& forall|i: int| 0 <= i < v.len() - 1 ==> !(#[trigger] v[i] == '-' && v[i + 1] == '-')
}

/// Trims `value`, folds ASCII letters to lower case, and accepts the result if it
/// is a valid slug.
pub fn normalize_slug(value: &str) -> (r: Result<String, DomainError>)
    ensures
        r is Ok <==> is_valid_slug(fold(value@)),
        r matches Ok(v) ==> v@ == fold(value@),
        r matches Err(e) ==> e == DomainError::InvalidSlug,
{
    let folded = fold_to_string(value);
    let v = chars_of(folded.as_str());
    let n = v.len();
    if n < 2 || n > 80 {
        return Err(DomainError::InvalidSlug);
    }
    let mut i: usize = 0;
    while i < n
        invariant
            i <= n,
            n == v@.len(),
            v@ == fold(value@),
            forall|k: int| 0 <= k < i ==> is_slug_char(#[trigger] v@[k]),
            forall|k: int| 0 <= k < i - 1 ==> !(#[trigger] v@[k] == '-' && v@[k + 1] == '-'),
        decreases n - i,
    {
        let c = v[i];
        if !(is_ascii_lowercase_exec(c) || is_ascii_digit_exec(c) || c == '-') {
            proof {
                assert(!is_slug_char(v@[i as int]));
            }
            return Err(DomainError::InvalidSlug);
        }
        if i > 0 && c == '-' && v[i - 1] == '-' {
            proof {
                assert(v@[i - 1] == '-' && v@[(i - 1) + 1] == '-');
            }
            return Err(DomainError::InvalidSlug);
        }
        proof {
            assert forall|k: int| 0 <= k < i implies !(#[trigger] v@[k] == '-' && v@[k + 1] == '-') by {
                if k == i - 1 {
                    assert(v@[k + 1] == c);
                }
            }
        }
        i += 1;
    }
    if v[0] == '-' || v[n - 1] == '-' {
        return Err(DomainError::InvalidSlug);
    }
    Ok(folded)
}

// ---------------------------------------------------------------------------
// Titles and bodies
// ---------------------------------------------------------------------------

/// A topic title after trimming: 3 to 200 characters.
pub open spec fn is_valid_title(v: Seq<char>) -> bool {
    3 <= v.len() <= 200
}

/// A post body after trimming: 1 to 100 000 characters.
pub open spec fn is_valid_body(v: Seq<char>) -> bool {
    1 <= v.len() <= 100_000
}

/// Trims `value` and accepts it if it is a valid topic title.
pub fn validate_title(value: &str) -> (r: Result<String, DomainError>)
    ensures
        r is Ok <==> is_valid_title(trim(value@)),
        r matches Ok(v) ==> v@ == trim(value@),
        r matches Err(e) ==> e == DomainError::InvalidTitle,
{
    let t = trim_to_string(value);
    let n = chars_of(t.as_str()).len();
    if 3 <= n && n <= 200 {
        Ok(t)
    } else {
        Err(DomainError::InvalidTitle)
    }
}

/// Trims `value` and accepts it if it is a valid post body.
pub fn validate_body(value: &str) -> (r: Result<String, DomainError>)
    ensures
        r is Ok <==> is_valid_body(trim(value@)),
        r matches Ok(v) ==> v@ == trim(value@),
        r matches Err(e) ==> e == DomainError::InvalidBody,
{
    let t = trim_to_string(value);
    let n = chars_of(t.as_str()).len();
    if 1 <= n && n <= 100_000 {
        Ok(t)
    } else {
        Err(DomainError::InvalidBody)
    }
}

// ---------------------------------------------------------------------------
// Laws
// ---------------------------------------------------------------------------

/// A user name that `normalize_username` accepted is accepted again, unchanged.
pub proof fn law_username_normal_form(value: Seq<char>)
    requires
        is_valid_username(fold(value)),
    ensures
        is_valid_username(fold(fold(value))),
        fold(fold(value)) == fold(value),
{
    lemma_fold_idempotent(value);
}

/// An e-mail address that `normalize_email` accepted is accepted again, unchanged.
pub proof fn law_email_normal_form(value: Seq<char>)
    requires
        is_valid_email(fold(value)),
    ensures
        is_valid_email(fold(fold(value))),
        fold(fold(value)) == fold(value),
{
    lemma_fold_idempotent(value);
}

/// A slug that `normalize_slug` accepted is accepted again, unchanged.
pub proof fn law_slug_normal_form(value: Seq<char>)
    requires
        is_valid_slug(fold(value)),
    ensures
        is_valid_slug(fold(fold(value))),
        fold(fold(value)) == fold(value),
{
    lemma_fold_idempotent(value);
}

/// A title that `validate_title` accepted is accepted again, unchanged.
pub proof fn law_title_normal_form(value: Seq<char>)
    requires
        is_valid_title(trim(value)),
    ensures
        is_valid_title(trim(trim(value))),
        trim(trim(value)) == trim(value),
{
    lemma_trim_idempotent(value);
}

/// A body that `validate_body` accepted is accepted again, unchanged.
pub proof fn law_body_normal_form(value: Seq<char>)
    requires
        is_valid_body(trim(value)),
    ensures
        is_valid_body(trim(trim(value))),
        trim(trim(value)) == trim(value),
{
    lemma_trim_idempotent(value);
}

/// What the user-name, e-mail and slug normalizers return holds no upper-case
/// ASCII letter and neither starts nor ends with white space.
pub proof fn law_folded_form(value: Seq<char>)
    ensures
        forall|i: int| 0 <= i < fold(value).len() ==> !is_ascii_uppercase(#[trigger] fold(value)[i]),
        fold(value).len() == 0 || (!is_white_space(fold(value)[0]) && !is_white_space(
            fold(value).last(),
        )),
{
    lemma_fold_idempotent(value);
    lemma_trim_edges(fold(value));
}

/// A title of 3 to 200 characters whose two ends are printable ASCII characters
/// other than the space (`?`, `!`, `)`, a letter, ...) is accepted exactly as
/// written: `validate_title` gives it back unchanged.
pub proof fn law_title_accepted_as_written(s: Seq<char>)
    requires
        3 <= s.len() <= 200,
        0x21 <= s[0] as u32 <= 0x7E,
        0x21 <= s.last() as u32 <= 0x7E,
    ensures
        trim(s) == s,
        is_valid_title(trim(s)),
{
    law_trim_keeps_printable_ends(s);
}

/// A body of 1 to 100 000 characters whose two ends are printable ASCII
/// characters other than the space is accepted exactly as written.
pub proof fn law_body_accepted_as_written(s: Seq<char>)
    requires
        1 <= s.len() <= 100_000,
        0x21 <= s[0] as u32 <= 0x7E,
        0x21 <= s.last() as u32 <= 0x7E,
    ensures
        trim(s) == s,
        is_valid_body(trim(s)),
{
    law_trim_keeps_printable_ends(s);
}

/// A text without `A`..`Z` whose ends are not white space is its own fold.
proof fn lemma_fold_fixed(v: Seq<char>)
    requires
        v.len() == 0 || (!is_white_space(v[0]) && !is_white_space(v.last())),
        forall|k: int| 0 <= k < v.len() ==> !(0x41 <= #[trigger] v[k] as u32 <= 0x5A),
    ensures
        fold(v) == v,
{
    lemma_trim_fixed(v);
    assert forall|k: int| 0 <= k < v.len() implies #[trigger] lower(v)[k] == v[k] by {
        law_ascii_lower_code_points(v[k]);
    }
    assert(lower(v) =~= v);
}

/// Which user names are valid, told by code point: 3 to 32 characters, each a
/// digit, an ASCII letter, `_` or `-`, the first a digit or a letter.
pub proof fn law_username_code_points(v: Seq<char>)
    ensures
        is_valid_username(v) <==> {
            &&& 3 <= v.len() <= 32
            &&& forall|k: int|
                #![trigger v[k]]
                0 <= k < v.len() ==> (0x30 <= v[k] as u32 <= 0x39 || 0x41 <= v[k] as u32 <= 0x5A
                    || 0x61 <= v[k] as u32 <= 0x7A || v[k] as u32 == 0x5F || v[k] as u32 == 0x2D)
            &&& (0x30 <= v[0] as u32 <= 0x39 || 0x41 <= v[0] as u32 <= 0x5A || 0x61 <= v[0] as u32
                <= 0x7A)
        },
{
    assert forall|k: int| 0 <= k < v.len() implies (is_username_char(#[trigger] v[k]) <==> (0x30
        <= v[k] as u32 <= 0x39 || 0x41 <= v[k] as u32 <= 0x5A || 0x61 <= v[k] as u32 <= 0x7A
        || v[k] as u32 == 0x5F || v[k] as u32 == 0x2D)) by {
        lemma_same_code_point(v[k], '_');
        lemma_same_code_point(v[k], '-');
    }
}

/// Every text of 3 to 32 characters from `a-z`, `0-9`, `_` and `-` whose first
/// character is a lower-case letter or a digit (`1337coder` too) is accepted
/// unchanged: folding leaves it as it is and the result is a valid user name.
pub proof fn law_username_accepted_unchanged(v: Seq<char>)
    requires
        3 <= v.len() <= 32,
        forall|k: int|
            #![trigger v[k]]
            0 <= k < v.len() ==> (0x30 <= v[k] as u32 <= 0x39 || 0x61 <= v[k] as u32 <= 0x7A
                || v[k] as u32 == 0x5F || v[k] as u32 == 0x2D),
        0x30 <= v[0] as u32 <= 0x39 || 0x61 <= v[0] as u32 <= 0x7A,
    ensures
        fold(v) == v,
        is_valid_username(fold(v)),
{
    law_white_space_code_points(v[0]);
    law_white_space_code_points(v.last());
    assert(v.last() == v[v.len() - 1]);
    lemma_fold_fixed(v);
    law_username_code_points(v);
}

/// Which slugs are valid, told by code point: 2 to 80 characters, each a
/// lower-case letter, a digit or `-`, neither the first nor the last a `-`, and
/// no two `-` side by side. The first character may be a digit.
pub proof fn law_slug_code_points(v: Seq<char>)
    ensures
        is_valid_slug(v) <==> {
            &&& 2 <= v.len() <= 80
            &&& forall|k: int|
                #![trigger v[k]]
                0 <= k < v.len() ==> (0x30 <= v[k] as u32 <= 0x39 || 0x61 <= v[k] as u32 <= 0x7A
                    || v[k] as u32 == 0x2D)
            &&& v[0] as u32 != 0x2D
            &&& v[v.len() - 1] as u32 != 0x2D
            &&& forall|k: int|
                #![trigger v[k]]
                0 <= k < v.len() - 1 ==> !(v[k] as u32 == 0x2D && v[k + 1] as u32 == 0x2D)
        },
{
    assert forall|k: int| 0 <= k < v.len() implies (is_slug_char(#[trigger] v[k]) <==> (0x30
        <= v[k] as u32 <= 0x39 || 0x61 <= v[k] as u32 <= 0x7A || v[k] as u32 == 0x2D)) by {
        lemma_same_code_point(v[k], '-');
    }
    assert forall|k: int| 0 <= k < v.len() implies (#[trigger] v[k] == '-' <==> v[k] as u32
        == 0x2D) by {
        lemma_same_code_point(v[k], '-');
    }
}

/// Every text that satisfies the slug rules by code point is accepted unchanged
/// (`3d-printing` too): folding leaves it as it is and the result is valid.
pub proof fn law_slug_accepted_unchanged(v: Seq<char>)
    requires
        2 <= v.len() <= 80,
        forall|k: int|
            #![trigger v[k]]
            0 <= k < v.len() ==> (0x30 <= v[k] as u32 <= 0x39 || 0x61 <= v[k] as u32 <= 0x7A
                || v[k] as u32 == 0x2D),
        v[0] as u32 != 0x2D,
        v[v.len() - 1] as u32 != 0x2D,
        forall|k: int|
            #![trigger v[k]]
            0 <= k < v.len() - 1 ==> !(v[k] as u32 == 0x2D && v[k + 1] as u32 == 0x2D),
    ensures
        fold(v) == v,
        is_valid_slug(fold(v)),
{
    law_white_space_code_points(v[0]);
    law_white_space_code_points(v.last());
    lemma_fold_fixed(v);
    law_slug_code_points(v);
}

/// No `@` (U+0040) stands before position `i` of `v`.
pub open spec fn no_at_before(v: Seq<char>, i: int) -> bool {
    forall|j: int| 0 <= j < i ==> #[trigger] v[j] as u32 != 0x40
}

/// A `.` (U+002E) stands somewhere after position `i` of `v`.
pub open spec fn dot_after(v: Seq<char>, i: int) -> bool {
    exists|p: int| i < p < v.len() && #[trigger] v[p] as u32 == 0x2E
}

/// An `@` at position `i` of `v` splits it into a non-empty local part and a
/// domain part that holds a `.`; no earlier `@` does.
pub open spec fn email_split_at(v: Seq<char>, i: int) -> bool {
    &&& 0 < i < v.len() - 1
    &&& v[i] as u32 == 0x40
    &&& no_at_before(v, i)
    &&& dot_after(v, i)
}

/// The e-mail rules, told directly: at most 254 UTF-8 bytes, and split at its
/// first `@` a non-empty local part and a domain part holding a `.`. Nothing
/// else is asked of the domain part.
pub open spec fn email_rules(v: Seq<char>) -> bool {
    &&& encode_utf8(v).len() <= 254
    &&& exists|i: int| #[trigger] email_split_at(v, i)
}

/// Which e-mail addresses are valid: exactly those that satisfy `email_rules`,
/// whatever the domain part starts with (`user@163.com` too).
pub proof fn law_email_rules(v: Seq<char>)
    ensures
        is_valid_email(v) <==> email_rules(v),
{
    assert forall|i: int| 0 <= i < v.len() implies (is_first_at(v, i) <==> (v[i] as u32 == 0x40
        && no_at_before(v, i))) by {
        lemma_same_code_point(v[i], '@');
        if no_at_before(v, i) {
            assert forall|j: int| 0 <= j < i implies v[j] != '@' by {
                assert(v[j] as u32 != 0x40);
                lemma_same_code_point(v[j], '@');
            }
        }
        if is_first_at(v, i) {
            assert forall|j: int| 0 <= j < i implies #[trigger] v[j] as u32 != 0x40 by {
                assert(v[j] != '@');
                lemma_same_code_point(v[j], '@');
            }
        }
    }
    assert forall|i: int| 0 <= i < v.len() implies (has_dot_after(v, i) <==> dot_after(v, i)) by {
        if has_dot_after(v, i) {
            let p = choose|p: int| i < p < v.len() && #[trigger] v[p] == '.';
            assert(v[p] as u32 == 0x2E);
        }
        if dot_after(v, i) {
            let p = choose|p: int| i < p < v.len() && #[trigger] v[p] as u32 == 0x2E;
            lemma_same_code_point(v[p], '.');
            assert(v[p] == '.');
        }
    }
    if is_valid_email(v) {
        let i = choose|i: int|
            #![trigger is_first_at(v, i)]
            is_first_at(v, i) && 0 < i && i + 1 < v.len() && has_dot_after(v, i);
        assert(email_split_at(v, i));
    }
    if email_rules(v) {
        let i = choose|i: int| #[trigger] email_split_at(v, i);
        assert(is_first_at(v, i) && 0 < i && i + 1 < v.len() && has_dot_after(v, i));
    }
}

/// Every address without `A`..`Z` that does not start or end with white space and
/// satisfies `email_rules` is accepted unchanged: folding leaves it as it is and
/// the result is a valid address.
pub proof fn law_email_accepted_unchanged(v: Seq<char>)
    requires
        email_rules(v),
        !is_white_space(v[0]),
        !is_white_space(v.last()),
        forall|k: int| 0 <= k < v.len() ==> !(0x41 <= #[trigger] v[k] as u32 <= 0x5A),
    ensures
        fold(v) == v,
        is_valid_email(fold(v)),
{
    lemma_fold_fixed(v);
    law_email_rules(v);
}

/// A title is accepted exactly when, trimmed, it holds 3 to 200 characters
/// (characters, not bytes).
pub proof fn law_title_length(s: Seq<char>)
    ensures
        is_valid_title(trim(s)) <==> 3 <= trim(s).len() <= 200,
{
}

/// A body is accepted exactly when, trimmed, it holds 1 to 100 000 characters.
pub proof fn law_body_length(s: Seq<char>)
    ensures
        is_valid_body(trim(s)) <==> 1 <= trim(s).len() <= 100_000,
{
}

} // verus!
