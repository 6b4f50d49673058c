//! Character-level helpers on strings: ordering, case folding, digits.

use vstd::prelude::*;

verus! {

/// The characters of `s`, in order.
pub fn chars_of(s: &str) -> (v: Vec<char>)
    ensures
        v@ == s@,
{
    let mut v: Vec<char> = Vec::new();
    for c in it: s.chars()
        invariant
            it.seq() == s@,
            v@ == it.seq().take(it.index() as int),
    {
        v.push(c);
    }
    v
}

/// A `String` holding exactly the characters of `v`
/// (`FromIterator<char>` for `String`).
#[verifier::external_body]
pub(crate) fn string_from_chars(v: &Vec<char>) -> (s: String)
    ensures
        s@ == v@,
{
    v.iter().collect()
}

// ───────────────────────── lexicographic order ─────────────────────────

/// `a` sorts before `b`, comparing from position `i` on
/// (code point by code point; a proper prefix sorts first).
pub open spec fn lex_lt_from(a: Seq<char>, b: Seq<char>, i: int) -> bool
    decreases a.len() - i,
{
    if i < 0 || i >= a.len() {
        0 <= i < b.len()
    } else if i >= b.len() {
        false
    } else if a[i] != b[i] {
        (a[i] as u32) < (b[i] as u32)
    } else {
        lex_lt_from(a, b, i + 1)
    }
}

/// The order of `String`s (`Ord for str`): lexicographic by code point.
pub open spec fn lex_lt(a: Seq<char>, b: Seq<char>) -> bool {
    lex_lt_from(a, b, 0)
}

pub proof fn lemma_lex_irreflexive_from(a: Seq<char>, i: int)
    requires
        0 <= i,
    ensures
        !lex_lt_from(a, a, i),
    decreases a.len() - i,
{
    if i < a.len() {
        lemma_lex_irreflexive_from(a, i + 1);
    }
}

pub proof fn lemma_lex_irreflexive(a: Seq<char>)
    ensures
        !lex_lt(a, a),
{
    lemma_lex_irreflexive_from(a, 0);
}

proof fn lemma_char_code_injective(c: char, d: char)
    ensures
        (c as u32) == (d as u32) ==> c == d,
{
}

pub proof fn lemma_lex_transitive_from(a: Seq<char>, b: Seq<char>, c: Seq<char>, i: int)
    requires
        0 <= i,
        lex_lt_from(a, b, i),
        lex_lt_from(b, c, i),
    ensures
        lex_lt_from(a, c, i),
    decreases a.len() - i,
{
    if i < a.len() && i < b.len() && i < c.len() {
        lemma_char_code_injective(a[i], b[i]);
        lemma_char_code_injective(b[i], c[i]);
        lemma_char_code_injective(a[i], c[i]);
        if a[i] == b[i] && b[i] == c[i] {
            lemma_lex_transitive_from(a, b, c, i + 1);
        }
    }
}

pub proof fn lemma_lex_transitive(a: Seq<char>, b: Seq<char>, c: Seq<char>)
    requires
        lex_lt(a, b),
        lex_lt(b, c),
    ensures
        lex_lt(a, c),
{
    lemma_lex_transitive_from(a, b, c, 0);
}

pub proof fn lemma_lex_total_from(a: Seq<char>, b: Seq<char>, i: int)
    requires
        0 <= i <= a.len(),
        i <= b.len(),
        a.take(i) == b.take(i),
    ensures
        lex_lt_from(a, b, i) || lex_lt_from(b, a, i) || a == b,
    decreases a.len() - i,
{
    if i < a.len() && i < b.len() {
        lemma_char_code_injective(a[i], b[i]);
        if a[i] == b[i] {
            assert(a.take(i + 1) == a.take(i).push(a[i]));
            assert(b.take(i + 1) == b.take(i).push(b[i]));
            lemma_lex_total_from(a, b, i + 1);
        }
    } else if i == a.len() && i == b.len() {
        assert(a == a.take(i));
        assert(b == b.take(i));
    }
}

/// Distinct character sequences are ordered one way or the other.
pub proof fn lemma_lex_total(a: Seq<char>, b: Seq<char>)
    ensures
        lex_lt(a, b) || lex_lt(b, a) || a == b,
{
    assert(a.take(0) == b.take(0));
    lemma_lex_total_from(a, b, 0);
}

/// Lexicographic `<` on two character sequences.
pub fn chars_lt(a: &[char], b: &[char]) -> (r: bool)
    ensures
        r == lex_lt(a@, b@),
{
    let mut i: usize = 0;
    while i < a.len() && i < b.len()
        invariant
            i <= a.len(),
            i <= b.len(),
            lex_lt(a@, b@) == lex_lt_from(a@, b@, i as int),
        decreases a.len() - i,
    {
        if a[i] != b[i] {
            return (a[i] as u32) < (b[i] as u32);
        }
        i += 1;
    }
    i == a.len() && i < b.len()
}

/// String equality by content.
pub fn str_eq(a: &str, b: &str) -> (r: bool)
    ensures
        r == (a@ == b@),
{
    let x = chars_of(a);
    let y = chars_of(b);
    if x.len() != y.len() {
        return false;
    }
    let mut i: usize = 0;
    while i < x.len()
        invariant
            x@ == a@,
            y@ == b@,
            x.len() == y.len(),
            i <= x.len(),
            forall|k: int| 0 <= k < i ==> x@[k] == y@[k],
        decreases x.len() - i,
    {
        if x[i] != y[i] {
            return false;
        }
        i += 1;
    }
    assert(x@ == y@);
    true
}

// ───────────────────────── case folding ─────────────────────────

/// ASCII lower-casing of one character; other characters are unchanged.
pub open spec fn ascii_lower(c: char) -> char {
    if 'A' <= c && c <= 'Z' {
        ((c as u32) + 32) as char
    } else {
        c
    }
}

/// Equal up to ASCII case (`str::eq_ignore_ascii_case`).
pub open spec fn eq_ignore_ascii_case(a: Seq<char>, b: Seq<char>) -> bool {
    a.len() == b.len() && forall|i: int| 0 <= i < a.len() ==> ascii_lower(a[i]) == ascii_lower(b[i])
}

pub fn ascii_lower_char(c: char) -> (r: char)
    ensures
        r == ascii_lower(c),
{
    if 'A' <= c && c <= 'Z' {
        let code: u32 = (c as u32) + 32;
        assert(0x61 <= code <= 0x7a);
        char_from_ascii(code)
    } else {
        c
    }
}

/// The character with ASCII code `code`.
pub fn char_from_ascii(code: u32) -> (c: char)
    requires
        code < 128,
    ensures
        c == code as char,
{
    let b: u8 = code as u8;
    b as char
}

pub fn str_eq_ignore_ascii_case(a: &str, b: &str) -> (r: bool)
    ensures
        r == eq_ignore_ascii_case(a@, b@),
{
    let x = chars_of(a);
    let y = chars_of(b);
    if x.len() != y.len() {
        return false;
    }
    let mut i: usize = 0;
    while i < x.len()
        invariant
            x@ == a@,
            y@ == b@,
            x.len() == y.len(),
            i <= x.len(),
            forall|k: int| 0 <= k < i ==> ascii_lower(x@[k]) == ascii_lower(y@[k]),
        decreases x.len() - i,
    {
        if ascii_lower_char(x[i]) != ascii_lower_char(y[i]) {
            return false;
        }
        i += 1;
    }
    true
}

/// The Unicode lower-case mapping of a whole string, as `str::to_lowercase`
/// computes it.
pub uninterp spec fn unicode_lowercase(s: Seq<char>) -> Seq<char>;

/// `str::to_lowercase`: the result is the Unicode lower-case mapping of
/// `s`, which depends on the characters of `s` alone.
#[verifier::external_body]
pub(crate) fn to_lowercase(s: &str) -> (r: String)
    ensures
        r@ == unicode_lowercase(s@),
{
    s.to_lowercase()
}

/// `s` as `{:?}` prints it: in double quotes, with Rust's escapes for
/// quotes, backslashes, control and non-printable characters. It depends
/// on the characters of `s` alone.
pub uninterp spec fn debug_quoted(s: Seq<char>) -> Seq<char>;

/// `<str as Debug>::fmt`, collected into a `String`.
#[verifier::external_body]
pub(crate) fn debug_str(s: &str) -> (r: String)
    ensures
        r@ == debug_quoted(s@),
{
    format!("{:?}", s)
}

// ───────────────────────── decimal digits ─────────────────────────

pub open spec fn digit_char(d: int) -> char {
    (('0' as u32) + d) as char
}

/// Decimal representation without leading zeros (`"0"` for zero).
pub open spec fn decimal(n: nat) -> Seq<char>
    decreases n,
{
    if n < 10 {
        seq![digit_char(n as int)]
    } else {
        decimal(n / 10).push(digit_char((n % 10) as int))
    }
}

fn digit(d: u64) -> (c: char)
    requires
        d < 10,
    ensures
        c == digit_char(d as int),
{
    char_from_ascii((48 + d) as u32)
}

/// The decimal digits of `n` (`to_string` of an unsigned integer).
pub fn decimal_chars(n: u64) -> (v: Vec<char>)
    ensures
        v@ == decimal(n as nat),
    decreases n,
{
    if n < 10 {
        let mut v: Vec<char> = Vec::new();
        v.push(digit(n));
        v
    } else {
        let mut v = decimal_chars(n / 10);
        v.push(digit(n % 10));
        v
    }
}

/// Decimal representation of an integer, with a leading `-` when negative.
pub open spec fn signed_decimal(n: int) -> Seq<char> {
    if n < 0 {
        "-"@ + decimal((-n) as nat)
    } else {
        decimal(n as nat)
    }
}

/// The decimal text of `n` (`to_string` of a signed integer).
pub fn signed_decimal_string(n: i64) -> (s: String)
    ensures
        s@ == signed_decimal(n as int),
{
    if n < 0 {
        let magnitude: u64 = ((-(n + 1)) as u64) + 1;
        assert(magnitude == -n);
        let digits = string_from_chars(&decimal_chars(magnitude));
        concat_str("-", digits.as_str())
    } else {
        string_from_chars(&decimal_chars(n as u64))
    }
}

/// Characters of `a` followed by those of `b`.
pub fn concat_str(a: &str, b: &str) -> (r: String)
    ensures
        r@ == a@ + b@,
{
    let mut v = chars_of(a);
    let w = chars_of(b);
    let mut i: usize = 0;
    while i < w.len()
        invariant
            w@ == b@,
            i <= w.len(),
            v@ == a@ + b@.take(i as int),
        decreases w.len() - i,
    {
        v.push(w[i]);
        i += 1;
        assert(b@.take(i as int) == b@.take((i - 1) as int).push(b@[i - 1]));
    }
    assert(b@.take(w.len() as int) == b@);
    string_from_chars(&v)
}

/// `s` without the trailing `suffix`, when it ends with it
/// (`str::strip_suffix`).
pub open spec fn stripped_suffix(s: Seq<char>, suffix: Seq<char>) -> Option<Seq<char>> {
    if suffix.len() <= s.len() && s.subrange(s.len() - suffix.len(), s.len() as int) == suffix {
        Some(s.subrange(0, s.len() - suffix.len()))
    } else {
        None
    }
}

pub fn strip_suffix(s: &str, suffix: &str) -> (r: Option<String>)
    ensures
        r matches Some(x) ==> stripped_suffix(s@, suffix@) == Some(x@),
        r is None ==> stripped_suffix(s@, suffix@) is None,
{
    let a = chars_of(s);
    let b = chars_of(suffix);
    if b.len() > a.len() {
        return None;
    }
    let start = a.len() - b.len();
    let mut i: usize = 0;
    while i < b.len()
        invariant
            a@ == s@,
            b@ == suffix@,
            start + b.len() == a.len(),
            i <= b@.len(),
            forall|j: int| 0 <= j < i ==> a@[start + j] == b@[j],
        decreases b@.len() - i,
    {
        if a[start + i] != b[i] {
            proof {
                assert(s@.subrange(start as int, s@.len() as int)[i as int] != suffix@[i as int]);
            }
            return None;
        }
        i += 1;
    }
    assert(s@.subrange(start as int, s@.len() as int) =~= suffix@);
    let mut stem: Vec<char> = Vec::new();
    let mut k: usize = 0;
    while k < start
        invariant
            a@ == s@,
            start <= a@.len(),
            k <= start,
            stem@ == s@.subrange(0, k as int),
        decreases start - k,
    {
        stem.push(a[k]);
        k += 1;
        assert(stem@ =~= s@.subrange(0, k as int));
    }
    Some(string_from_chars(&stem))
}

} // verus!
