//! Character classes, trimming, ASCII case folding and hexadecimal text,
//! stated over the character sequence that a string holds.
use vstd::prelude::*;

verus! {

broadcast use vstd::string::group_string_axioms;

// ---------------------------------------------------------------------------
// Character classes
// ---------------------------------------------------------------------------

/// The Unicode `White_Space` characters, which `char::is_whitespace` accepts.
pub open spec fn is_white_space(c: char) -> bool {
    let u = c as u32;
    ||| 0x09 <= u <= 0x0D
    ||| u == 0x20
    ||| u == 0x85
    ||| u == 0xA0
    ||| u == 0x1680
    ||| 0x2000 <= u <= 0x200A
    ||| u == 0x2028
    ||| u == 0x2029
    ||| u == 0x202F
    ||| u == 0x205F
    ||| u == 0x3000
}

pub open spec fn is_ascii_digit(c: char) -> bool {
    48 <= c as u32 <= 57
}

pub open spec fn is_ascii_lowercase(c: char) -> bool {
    97 <= c as u32 <= 122
}

pub open spec fn is_ascii_uppercase(c: char) -> bool {
    65 <= c as u32 <= 90
}

pub open spec fn is_ascii_alphanumeric(c: char) -> bool {
    is_ascii_digit(c) || is_ascii_lowercase(c) || is_ascii_uppercase(c)
}

pub open spec fn is_ascii_hexdigit(c: char) -> bool {
    ||| is_ascii_digit(c)
    ||| 97 <= c as u32 <= 102
    ||| 65 <= c as u32 <= 70
}

/// `char::to_ascii_lowercase`: `A`..`Z` become `a`..`z`, every other character stays.
pub open spec fn ascii_lower(c: char) -> char {
    if is_ascii_uppercase(c) {
        ((c as u32) + 32) as char
    } else {
        c
    }
}

pub fn is_white_space_exec(c: char) -> (b: bool)
    ensures
        b == is_white_space(c),
{
    let u = c as u32;
    (0x09 <= u && u <= 0x0D) || u == 0x20 || u == 0x85 || u == 0xA0 || u == 0x1680 || (0x2000
        <= u && u <= 0x200A) || u == 0x2028 || u == 0x2029 || u == 0x202F || u == 0x205F || u
        == 0x3000
}

pub fn is_ascii_digit_exec(c: char) -> (b: bool)
    ensures
        b == is_ascii_digit(c),
{
    let u = c as u32;
    48 <= u && u <= 57
}

pub fn is_ascii_lowercase_exec(c: char) -> (b: bool)
    ensures
        b == is_ascii_lowercase(c),
{
    let u = c as u32;
    97 <= u && u <= 122
}

pub fn is_ascii_alphanumeric_exec(c: char) -> (b: bool)
    ensures
        b == is_ascii_alphanumeric(c),
{
    let u = c as u32;
    (48 <= u && u <= 57) || (97 <= u && u <= 122) || (65 <= u && u <= 90)
}

pub fn is_ascii_hexdigit_exec(c: char) -> (b: bool)
    ensures
        b == is_ascii_hexdigit(c),
{
    let u = c as u32;
    (48 <= u && u <= 57) || (97 <= u && u <= 102) || (65 <= u && u <= 70)
}

pub fn ascii_lower_exec(c: char) -> (r: char)
    ensures
        r == ascii_lower(c),
{
    let u = c as u32;
    if 65 <= u && u <= 90 {
        let b: u8 = (u + 32) as u8;
        b as char
    } else {
        c
    }
}

// ---------------------------------------------------------------------------
// Sequences of characters
// ---------------------------------------------------------------------------

/// `str::trim_start`: the leading white space removed.
pub open spec fn trim_start(s: Seq<char>) -> Seq<char>
    decreases s.len(),
{
    if s.len() > 0 && is_white_space(s[0]) {
        trim_start(s.drop_first())
    } else {
        s
    }
}

/// `str::trim_end`: the trailing white space removed.
pub open spec fn trim_end(s: Seq<char>) -> Seq<char>
    decreases s.len(),
{
    if s.len() > 0 && is_white_space(s.last()) {
        trim_end(s.drop_last())
    } else {
        s
    }
}

/// `str::trim`: leading and trailing white space removed.
pub open spec fn trim(s: Seq<char>) -> Seq<char> {
    trim_end(trim_start(s))
}

/// `str::to_ascii_lowercase`.
pub open spec fn lower(s: Seq<char>) -> Seq<char> {
    s.map_values(|c: char| ascii_lower(c))
}

/// What the forum does first to a user name, an e-mail address, a slug or a
/// login: trim it, then fold ASCII letters to lower case.
pub open spec fn fold(s: Seq<char>) -> Seq<char> {
    lower(trim(s))
}

/// The characters of `s`, in order.
pub fn chars_of(s: &str) -> (v: Vec<char>)
    ensures
        v@ == s@,
{
    let mut v: Vec<char> = Vec::new();
    for c in it: s.chars()
        invariant
            it.seq() == s@,
            v@ == it.seq().take(it.index()),
    {
        v.push(c);
        proof {
            assert(v@ =~= it.seq().take(it.index() + 1));
        }
    }
    proof {
        assert(v@ =~= s@.take(s@.len() as int));
    }
    v
}

/// Appends one character to a `String` (`String::push`).
#[verifier::external_body]
pub(crate) fn push_char(s: &mut String, c: char)
    ensures
        final(s)@ == old(s)@.push(c),
{
    s.push(c);
}

/// The bounds of the trimmed part of `v`.
fn trimmed_bounds(v: &Vec<char>) -> (r: (usize, usize))
    ensures
        r.0 <= r.1 <= v@.len(),
        trim(v@) == v@.subrange(r.0 as int, r.1 as int),
{
    let n = v.len();
    let mut i: usize = 0;
    proof {
        assert(v@.skip(0) =~= v@);
    }
    while i < n && is_white_space_exec(v[i])
        invariant
            i <= n,
            n == v@.len(),
            trim_start(v@) == trim_start(v@.skip(i as int)),
        decreases n - i,
    {
        proof {
            assert(v@.skip(i as int).drop_first() =~= v@.skip(i + 1));
        }
        i += 1;
    }
    proof {
        assert(trim_start(v@.skip(i as int)) == v@.skip(i as int));
        assert(v@.skip(i as int) =~= v@.subrange(i as int, n as int));
    }
    let mut j: usize = n;
    while j > i && is_white_space_exec(v[j - 1])
        invariant
            i <= j <= n,
            n == v@.len(),
            trim(v@) == trim_end(v@.subrange(i as int, j as int)),
        decreases j,
    {
        proof {
            assert(v@.subrange(i as int, j as int).drop_last() =~= v@.subrange(
                i as int,
                j - 1,
            ));
        }
        j -= 1;
    }
    proof {
        assert(trim_end(v@.subrange(i as int, j as int)) == v@.subrange(i as int, j as int));
    }
    (i, j)
}

/// `s.trim().to_string()`.
pub fn trim_to_string(s: &str) -> (t: String)
    ensures
        t@ == trim(s@),
{
    let v = chars_of(s);
    let (i, j) = trimmed_bounds(&v);
    let mut t = String::new();
    let mut k = i;
    while k < j
        invariant
            i <= k <= j,
            j <= v@.len(),
            t@ == v@.subrange(i as int, k as int),
        decreases j - k,
    {
        push_char(&mut t, v[k]);
        proof {
            assert(t@ =~= v@.subrange(i as int, k + 1));
        }
        k += 1;
    }
    t
}

/// `s.trim().to_ascii_lowercase()`.
pub fn fold_to_string(s: &str) -> (t: String)
    ensures
        t@ == fold(s@),
{
    let v = chars_of(s);
    let (i, j) = trimmed_bounds(&v);
    let mut t = String::new();
    let mut k = i;
    while k < j
        invariant
            i <= k <= j,
            j <= v@.len(),
            t@ == lower(v@.subrange(i as int, k as int)),
        decreases j - k,
    {
        let c = ascii_lower_exec(v[k]);
        push_char(&mut t, c);
        proof {
            assert(t@ =~= lower(v@.subrange(i as int, k + 1)));
        }
        k += 1;
    }
    t
}

// ---------------------------------------------------------------------------
// Lemmas on trimming and case folding
// ---------------------------------------------------------------------------

/// What `trim` leaves starts and ends with a character that is not white space.
pub proof fn lemma_trim_edges(s: Seq<char>)
    ensures
        trim(s).len() == 0 || (!is_white_space(trim(s)[0]) && !is_white_space(trim(s).last())),
{
    lemma_trim_start_edge(s);
    lemma_trim_end_prefix(trim_start(s));
    lemma_trim_end_edge(trim_start(s));
}

proof fn lemma_trim_start_edge(s: Seq<char>)
    ensures
        trim_start(s).len() == 0 || !is_white_space(trim_start(s)[0]),
    decreases s.len(),
{
    if s.len() > 0 && is_white_space(s[0]) {
        lemma_trim_start_edge(s.drop_first());
    }
}

proof fn lemma_trim_end_edge(s: Seq<char>)
    ensures
        trim_end(s).len() == 0 || !is_white_space(trim_end(s).last()),
    decreases s.len(),
{
    if s.len() > 0 && is_white_space(s.last()) {
        lemma_trim_end_edge(s.drop_last());
    }
}

proof fn lemma_trim_end_prefix(s: Seq<char>)
    ensures
        trim_end(s).len() <= s.len(),
        trim_end(s) == s.take(trim_end(s).len() as int),
    decreases s.len(),
{
    if s.len() > 0 && is_white_space(s.last()) {
        lemma_trim_end_prefix(s.drop_last());
        assert(s.drop_last().take(trim_end(s).len() as int) =~= s.take(
            trim_end(s).len() as int,
        ));
    } else {
        assert(s.take(s.len() as int) =~= s);
    }
}

/// A sequence that neither starts nor ends with white space is its own trim.
pub proof fn lemma_trim_fixed(s: Seq<char>)
    requires
        s.len() == 0 || (!is_white_space(s[0]) && !is_white_space(s.last())),
    ensures
        trim(s) == s,
{
}

/// Trimming twice is trimming once.
pub proof fn lemma_trim_idempotent(s: Seq<char>)
    ensures
        trim(trim(s)) == trim(s),
{
    lemma_trim_edges(s);
    lemma_trim_fixed(trim(s));
}

/// ASCII case folding leaves white space as it is.
pub proof fn lemma_lower_keeps_white_space(c: char)
    ensures
        is_white_space(ascii_lower(c)) == is_white_space(c),
{
}

/// Folding a folded sequence changes nothing.
pub proof fn lemma_fold_idempotent(s: Seq<char>)
    ensures
        fold(fold(s)) == fold(s),
{
    let t = trim(s);
    lemma_trim_edges(s);
    let l = lower(t);
    if l.len() > 0 {
        lemma_lower_keeps_white_space(t[0]);
        lemma_lower_keeps_white_space(t.last());
        assert(l[0] == ascii_lower(t[0]));
        assert(l.last() == ascii_lower(t.last()));
    }
    lemma_trim_fixed(l);
    assert(lower(l) =~= l);
}

/// Two characters are equal exactly when their code points are.
pub proof fn lemma_same_code_point(c: char, d: char)
    ensures
        (c == d) <==> (c as u32 == d as u32),
{
    if c as u32 == d as u32 {
        vstd::utf8::char_u32_cast(c, c as u32);
        vstd::utf8::char_u32_cast(d, d as u32);
    }
}

/// Which characters count as white space, told by code point: the space, tab,
/// line feed, vertical tab, form feed, carriage return, next line, no-break space
/// and the ideographic space are; no printable ASCII character other than the
/// space is, and neither is any character from U+00A1 to U+167F.
pub proof fn law_white_space_code_points(c: char)
    ensures
        0x21 <= c as u32 <= 0x7E ==> !is_white_space(c),
        0xA1 <= c as u32 <= 0x167F ==> !is_white_space(c),
        (c as u32 == 0x20 || 0x09 <= c as u32 <= 0x0D || c as u32 == 0x85 || c as u32 == 0xA0
            || c as u32 == 0x1680 || 0x2000 <= c as u32 <= 0x200A || c as u32 == 0x2028 || c as u32
            == 0x2029 || c as u32 == 0x202F || c as u32 == 0x205F || c as u32 == 0x3000)
            ==> is_white_space(c),
        0x200B <= c as u32 <= 0x2027 ==> !is_white_space(c),
        0x3001 <= c as u32 ==> !is_white_space(c),
{
}

proof fn lemma_trim_start_skips(s: Seq<char>) -> (a: int)
    ensures
        0 <= a <= s.len(),
        trim_start(s) == s.skip(a),
        forall|k: int| 0 <= k < a ==> is_white_space(#[trigger] s[k]),
    decreases s.len(),
{
    if s.len() > 0 && is_white_space(s[0]) {
        let a1 = lemma_trim_start_skips(s.drop_first());
        assert(s.drop_first().skip(a1) =~= s.skip(a1 + 1));
        assert forall|k: int| 0 <= k < a1 + 1 implies is_white_space(#[trigger] s[k]) by {
            if k > 0 {
                assert(s[k] == s.drop_first()[k - 1]);
            }
        }
        a1 + 1
    } else {
        assert(s.skip(0) =~= s);
        0
    }
}

proof fn lemma_trim_end_takes(s: Seq<char>) -> (b: int)
    ensures
        0 <= b <= s.len(),
        trim_end(s) == s.take(b),
        forall|k: int| b <= k < s.len() ==> is_white_space(#[trigger] s[k]),
    decreases s.len(),
{
    if s.len() > 0 && is_white_space(s.last()) {
        let b1 = lemma_trim_end_takes(s.drop_last());
        assert(s.drop_last().take(b1) =~= s.take(b1));
        assert forall|k: int| b1 <= k < s.len() implies is_white_space(#[trigger] s[k]) by {
            if k < s.len() - 1 {
                assert(s[k] == s.drop_last()[k]);
            }
        }
        b1
    } else {
        assert(s.take(s.len() as int) =~= s);
        s.len() as int
    }
}

/// Trimming removes white space at the two ends and nothing else: what it leaves
/// is a contiguous part of the text, everything before and after that part is
/// white space, and the part itself neither starts nor ends with white space.
pub proof fn law_trim_removes_only_white_space(s: Seq<char>)
    ensures
        exists|a: int, b: int|
            0 <= a <= b <= s.len() && trim(s) == s.subrange(a, b) && (forall|k: int|
                0 <= k < a ==> is_white_space(#[trigger] s[k])) && (forall|k: int|
                b <= k < s.len() ==> is_white_space(#[trigger] s[k])),
        trim(s).len() == 0 || (!is_white_space(trim(s)[0]) && !is_white_space(trim(s).last())),
{
    let a = lemma_trim_start_skips(s);
    let t = s.skip(a);
    let b = lemma_trim_end_takes(t);
    assert(t.take(b) =~= s.subrange(a, a + b));
    assert forall|k: int| a + b <= k < s.len() implies is_white_space(#[trigger] s[k]) by {
        assert(s[k] == t[k - a]);
    }
    lemma_trim_edges(s);
}

/// A text whose two ends are printable ASCII characters other than the space
/// (a letter, a digit, `?`, `!`, `)`, ...) is left as it is by trimming.
pub proof fn law_trim_keeps_printable_ends(s: Seq<char>)
    requires
        s.len() > 0,
        0x21 <= s[0] as u32 <= 0x7E,
        0x21 <= s.last() as u32 <= 0x7E,
    ensures
        trim(s) == s,
{
    law_white_space_code_points(s[0]);
    law_white_space_code_points(s.last());
    lemma_trim_fixed(s);
}

/// Case folding turns `A`..`Z` into `a`..`z` and keeps every other character.
pub proof fn law_ascii_lower_code_points(c: char)
    ensures
        0x41 <= c as u32 <= 0x5A ==> ascii_lower(c) as u32 == c as u32 + 0x20,
        !(0x41 <= c as u32 <= 0x5A) ==> ascii_lower(c) == c,
{
}

// ---------------------------------------------------------------------------
// Hexadecimal text
// ---------------------------------------------------------------------------

/// The lower-case hexadecimal digit for `n`, `0 <= n < 16`.
pub open spec fn hex_digit(n: int) -> char {
    if n < 10 {
        (48 + n) as char
    } else {
        (87 + n) as char
    }
}

/// Two lower-case hexadecimal digits for each byte, high nibble first
/// (what `format!("{byte:02x}")` writes for each byte in turn).
pub open spec fn hex_lower(b: Seq<u8>) -> Seq<char> {
    Seq::new(
        (2 * b.len()) as nat,
        |k: int|
            if k % 2 == 0 {
                hex_digit(b[k / 2] as int / 16)
            } else {
                hex_digit(b[k / 2] as int % 16)
            },
    )
}

fn hex_digit_exec(n: u8) -> (c: char)
    requires
        n < 16,
    ensures
        c == hex_digit(n as int),
{
    if n < 10 {
        (n + 48) as char
    } else {
        (n + 87) as char
    }
}

/// The lower-case hexadecimal text of `bytes`.
pub fn hex_lower_exec(bytes: &[u8]) -> (t: String)
    ensures
        t@ == hex_lower(bytes@),
{
    let mut t = String::new();
    let n = bytes.len();
    let mut i: usize = 0;
    while i < n
        invariant
            i <= n,
            n == bytes@.len(),
            t@.len() == 2 * i,
            forall|k: int| 0 <= k < 2 * i ==> #[trigger] t@[k] == hex_lower(bytes@)[k],
        decreases n - i,
    {
        let b = bytes[i];
        let hi = hex_digit_exec(b / 16);
        let lo = hex_digit_exec(b % 16);
        let ghost before = t@;
        push_char(&mut t, hi);
        push_char(&mut t, lo);
        proof {
            assert(hex_lower(bytes@)[2 * i] == hi);
            assert(hex_lower(bytes@)[2 * i + 1] == lo);
            assert forall|k: int| 0 <= k < 2 * (i + 1) implies #[trigger] t@[k] == hex_lower(
                bytes@,
            )[k] by {
                if k < 2 * i {
                    assert(t@[k] == before[k]);
                }
            }
        }
        i += 1;
    }
    proof {
        assert(t@ =~= hex_lower(bytes@));
    }
    t
}

/// Every character of a hexadecimal text is a lower-case hexadecimal digit.
pub proof fn lemma_hex_lower_digits(b: Seq<u8>)
    ensures
        forall|k: int|
            0 <= k < hex_lower(b).len() ==> is_ascii_hexdigit(#[trigger] hex_lower(b)[k]),
{
    assert forall|k: int| 0 <= k < hex_lower(b).len() implies is_ascii_hexdigit(
        #[trigger] hex_lower(b)[k],
    ) by {
        let n = if k % 2 == 0 {
            b[k / 2] as int / 16
        } else {
            b[k / 2] as int % 16
        };
        assert(0 <= n < 16);
        assert(hex_lower(b)[k] == hex_digit(n));
    }
}

/// The digits are `0`..`9` for 0 to 9 and the lower-case letters `a`..`f` for
/// 10 to 15.
pub proof fn law_hex_digit_code_points(n: int)
    requires
        0 <= n < 16,
    ensures
        n < 10 ==> hex_digit(n) as u32 == 0x30 + n,
        n >= 10 ==> hex_digit(n) as u32 == 0x61 + (n - 10),
{
}

/// Hexadecimal text takes two digits per byte, the high nibble first, and the
/// text of a concatenation is the concatenation of the texts.
pub proof fn law_hex_lower_layout(a: Seq<u8>, b: Seq<u8>)
    ensures
        hex_lower(a).len() == 2 * a.len(),
        forall|k: int|
            0 <= k < a.len() ==> hex_lower(a)[2 * k] == hex_digit(#[trigger] a[k] as int / 16)
                && hex_lower(a)[2 * k + 1] == hex_digit(a[k] as int % 16),
        hex_lower(a + b) == hex_lower(a) + hex_lower(b),
{
    assert forall|k: int| 0 <= k < a.len() implies hex_lower(a)[2 * k] == hex_digit(
        #[trigger] a[k] as int / 16,
    ) && hex_lower(a)[2 * k + 1] == hex_digit(a[k] as int % 16) by {
        assert((2 * k) / 2 == k && (2 * k) % 2 == 0);
        assert((2 * k + 1) / 2 == k && (2 * k + 1) % 2 == 1);
    }
    let l = hex_lower(a + b);
    let r = hex_lower(a) + hex_lower(b);
    assert(l.len() == r.len());
    assert forall|k: int| 0 <= k < l.len() implies l[k] == r[k] by {
        if k < 2 * a.len() {
            assert(k / 2 < a.len());
            assert((a + b)[k / 2] == a[k / 2]);
        } else {
            assert((k - 2 * a.len()) / 2 == k / 2 - a.len());
            assert((k - 2 * a.len()) % 2 == k % 2);
            assert((a + b)[k / 2] == b[k / 2 - a.len()]);
        }
    }
    assert(l =~= r);
}

/// Different hexadecimal digits stand for different values.
pub proof fn lemma_hex_digit_injective(m: int, n: int)
    requires
        0 <= m < 16,
        0 <= n < 16,
        hex_digit(m) == hex_digit(n),
    ensures
        m == n,
{
    assert(hex_digit(m) as u32 == if m < 10 { 48 + m } else { 87 + m });
    assert(hex_digit(n) as u32 == if n < 10 { 48 + n } else { 87 + n });
}

/// Hexadecimal text loses nothing: two byte sequences have the same text exactly
/// when they are the same sequence.
pub proof fn law_hex_lower_injective(a: Seq<u8>, b: Seq<u8>)
    ensures
        hex_lower(a) == hex_lower(b) <==> a == b,
{
    if hex_lower(a) == hex_lower(b) {
        assert(hex_lower(a).len() == 2 * a.len());
        assert(hex_lower(b).len() == 2 * b.len());
        assert(a.len() == b.len());
        assert forall|k: int| 0 <= k < a.len() implies a[k] == b[k] by {
            assert(hex_lower(a)[2 * k] == hex_lower(b)[2 * k]);
            assert(hex_lower(a)[2 * k + 1] == hex_lower(b)[2 * k + 1]);
            assert((2 * k) / 2 == k && (2 * k) % 2 == 0);
            assert((2 * k + 1) / 2 == k && (2 * k + 1) % 2 == 1);
            lemma_hex_digit_injective(a[k] as int / 16, b[k] as int / 16);
            lemma_hex_digit_injective(a[k] as int % 16, b[k] as int % 16);
        }
        assert(a =~= b);
    }
}

} // verus!
