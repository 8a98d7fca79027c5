//! Character-level string helpers shared by the rest of the library.
//!
//! Text is handled as sequences of `char`s: a `&str` is read into a
//! `Vec<char>`, processed by verified loops, and turned back into a `String`.

use vstd::prelude::*;

verus! {

/// Read the characters of `s` into a vector.
pub fn chars_of(s: &str) -> (v: Vec<char>)
    ensures
        v@ == s@,
{
    let mut v: Vec<char> = Vec::new();
    for c in it: s.chars()
        invariant
            it.seq() == s@,
            v@ == it.seq().take(it.index() as int),
    {
        v.push(c);
        proof {
            assert(it.seq().take(it.index() + 1) =~= it.seq().take(it.index() as int).push(c));
        }
    }
    v
}

/// `String::push`: appends one character.
#[verifier::external_body]
pub(crate) fn push_char(s: &mut String, c: char)
    ensures
        final(s)@ == old(s)@.push(c),
{
    s.push(c);
}

/// Append `other` to `s`.
pub fn push_str(s: &mut String, other: &str)
    ensures
        final(s)@ == old(s)@ + other@,
{
    s.append(other);
}

/// Append a character sequence to `s`.
pub fn push_chars(s: &mut String, v: &Vec<char>)
    ensures
        final(s)@ == old(s)@ + v@,
{
    let ghost start = s@;
    let mut i: usize = 0;
    while i < v.len()
        invariant
            i <= v.len(),
            s@ == start + v@.take(i as int),
        decreases v.len() - i,
    {
        push_char(s, v[i]);
        i += 1;
        proof {
            assert(v@.take(i as int) =~= v@.take(i - 1).push(v@[i - 1]));
        }
    }
    proof {
        assert(v@.take(v.len() as int) =~= v@);
    }
}

/// Build a `String` holding exactly the characters of `v`.
pub fn string_of(v: &Vec<char>) -> (s: String)
    ensures
        s@ == v@,
{
    let mut s = String::new();
    push_chars(&mut s, v);
    proof {
        assert(Seq::<char>::empty() + v@ =~= v@);
    }
    s
}

/// Copy a string slice into an owned `String`.
pub fn owned(s: &str) -> (r: String)
    ensures
        r@ == s@,
{
    s.to_owned()
}

/// Character-wise equality of two string slices.
pub fn str_eq(a: &str, b: &str) -> (r: bool)
    ensures
        r == (a@ == b@),
{
    let x = a.to_owned();
    let y = b.to_owned();
    x == y
}

// ---------------------------------------------------------------------
// Decimal rendering of integers
// ---------------------------------------------------------------------
/// The ASCII digit for `d` (expected below 10).
pub open spec fn digit_char(d: nat) -> char {
    if d == 0 {
        '0'
    } else if d == 1 {
        '1'
    } else if d == 2 {
        '2'
    } else if d == 3 {
        '3'
    } else if d == 4 {
        '4'
    } else if d == 5 {
        '5'
    } else if d == 6 {
        '6'
    } else if d == 7 {
        '7'
    } else if d == 8 {
        '8'
    } else {
        '9'
    }
}

/// Decimal notation of `n`, without leading zeros (`0` is "0").
pub open spec fn decimal(n: nat) -> Seq<char>
    decreases n,
{
    if n < 10 {
        seq![digit_char(n)]
    } else {
        decimal(n / 10).push(digit_char(n % 10))
    }
}

/// Decimal notation of `n`, left-padded with zeros to at least two digits.
pub open spec fn decimal_2(n: nat) -> Seq<char> {
    if n < 10 {
        seq!['0', digit_char(n)]
    } else {
        decimal(n)
    }
}

fn digit_exec(d: u64) -> (c: char)
    requires
        d < 10,
    ensures
        c == digit_char(d as nat),
{
    if d == 0 {
        '0'
    } else if d == 1 {
        '1'
    } else if d == 2 {
        '2'
    } else if d == 3 {
        '3'
    } else if d == 4 {
        '4'
    } else if d == 5 {
        '5'
    } else if d == 6 {
        '6'
    } else if d == 7 {
        '7'
    } else if d == 8 {
        '8'
    } else {
        '9'
    }
}

/// Decimal characters of `n`.
pub fn decimal_chars(n: u64) -> (v: Vec<char>)
    ensures
        v@ == decimal(n as nat),
    decreases n,
{
    if n < 10 {
        let mut v = Vec::new();
        v.push(digit_exec(n));
        proof {
            assert(v@ =~= seq![digit_char(n as nat)]);
        }
        v
    } else {
        let mut v = decimal_chars(n / 10);
        v.push(digit_exec(n % 10));
        v
    }
}

/// Append the decimal notation of `n` to `s`.
pub fn push_decimal(s: &mut String, n: u64)
    ensures
        final(s)@ == old(s)@ + decimal(n as nat),
{
    let v = decimal_chars(n);
    push_chars(s, &v);
}

/// Append the two-digit zero-padded notation of `n` to `s`.
pub fn push_decimal_2(s: &mut String, n: u64)
    ensures
        final(s)@ == old(s)@ + decimal_2(n as nat),
{
    if n < 10 {
        let ghost s0 = s@;
        push_char(s, '0');
        push_char(s, digit_exec(n));
        proof {
            assert(s@ =~= s0 + seq!['0', digit_char(n as nat)]);
        }
    } else {
        push_decimal(s, n);
    }
}

// ---------------------------------------------------------------------
// Unicode character classes and case mapping
// ---------------------------------------------------------------------
/// ASCII letters and digits.
pub open spec fn is_ascii_alnum(c: char) -> bool {
    ('a' <= c && c <= 'z') || ('A' <= c && c <= 'Z') || ('0' <= c && c <= '9')
}

/// The ASCII whitespace characters that Unicode's `White_Space` property
/// contains: tab, line feed, vertical tab, form feed, carriage return, space.
pub open spec fn is_ascii_white_space(c: char) -> bool {
    c == ' ' || c == '\t' || c == '\n' || c == '\x0B' || c == '\x0C' || c == '\r'
}

pub open spec fn is_ascii_char(c: char) -> bool {
    (c as u32) < 128
}

pub open spec fn all_ascii(s: Seq<char>) -> bool {
    forall|i: int| 0 <= i < s.len() ==> is_ascii_char(#[trigger] s[i])
}

/// ASCII lowercase mapping of one character (others unchanged).
pub open spec fn ascii_lower(c: char) -> char {
    if 'A' <= c && c <= 'Z' {
        ((c as u32) + 32) as char
    } else {
        c
    }
}

/// What `char::is_alphanumeric` answers for `c` (Unicode `Alphabetic` or
/// `Numeric`).
pub uninterp spec fn unicode_alphanumeric(c: char) -> bool;

/// What `char::is_whitespace` answers for `c` (Unicode `White_Space`).
pub uninterp spec fn unicode_white_space(c: char) -> bool;

/// What `str::to_lowercase` returns for a string with characters `s`.
pub uninterp spec fn unicode_lowercase(s: Seq<char>) -> Seq<char>;

/// `char::is_alphanumeric`. For ASCII characters this is exactly the
/// ASCII letters and digits; beyond ASCII it follows the Unicode tables,
/// which the contract names but does not spell out.
#[verifier::external_body]
pub(crate) fn is_alphanumeric(c: char) -> (b: bool)
    ensures
        b == unicode_alphanumeric(c),
        is_ascii_char(c) ==> (b == is_ascii_alnum(c)),
{
    c.is_alphanumeric()
}

/// `char::is_whitespace`. For ASCII characters this is exactly
/// `is_ascii_white_space`; beyond ASCII it follows the Unicode `White_Space`
/// table, which the contract names but does not spell out.
#[verifier::external_body]
pub(crate) fn is_whitespace(c: char) -> (b: bool)
    ensures
        b == unicode_white_space(c),
        is_ascii_char(c) ==> (b == is_ascii_white_space(c)),
{
    c.is_whitespace()
}

/// `str::to_lowercase`. On all-ASCII input the result is the character-wise
/// ASCII lowercase mapping; otherwise it follows the Unicode case tables
/// (which may change lengths), named but not spelled out here.
#[verifier::external_body]
pub(crate) fn to_lowercase(s: &str) -> (r: String)
    ensures
        r@ == unicode_lowercase(s@),
        all_ascii(s@) ==> r@ == s@.map_values(|c: char| ascii_lower(c)),
{
    s.to_lowercase()
}

// ---------------------------------------------------------------------
// Trimming
// ---------------------------------------------------------------------
/// Number of leading characters of `s` that are whitespace.
pub open spec fn leading_ws(s: Seq<char>) -> nat
    decreases s.len(),
{
    if s.len() > 0 && unicode_white_space(s[0]) {
        1 + leading_ws(s.drop_first())
    } else {
        0
    }
}

/// Number of trailing characters of `s` that are whitespace.
pub open spec fn trailing_ws(s: Seq<char>) -> nat
    decreases s.len(),
{
    if s.len() > 0 && unicode_white_space(s.last()) {
        1 + trailing_ws(s.drop_last())
    } else {
        0
    }
}

/// `s` without leading and trailing whitespace (as `str::trim`).
pub open spec fn trim_spec(s: Seq<char>) -> Seq<char> {
    let t = s.subrange(leading_ws(s) as int, s.len() as int);
    t.subrange(0, t.len() - trailing_ws(t))
}

/// `s` without trailing whitespace (as `str::trim_end`).
pub open spec fn trim_end_spec(s: Seq<char>) -> Seq<char> {
    s.subrange(0, s.len() - trailing_ws(s))
}

/// `s` without leading whitespace (as `str::trim_start`).
pub open spec fn trim_start_spec(s: Seq<char>) -> Seq<char> {
    s.subrange(leading_ws(s) as int, s.len() as int)
}

proof fn lemma_leading_ws_bound(s: Seq<char>)
    ensures
        leading_ws(s) <= s.len(),
        forall|i: int| 0 <= i < leading_ws(s) ==> unicode_white_space(#[trigger] s[i]),
        leading_ws(s) < s.len() ==> !unicode_white_space(s[leading_ws(s) as int]),
    decreases s.len(),
{
    if s.len() > 0 && unicode_white_space(s[0]) {
        lemma_leading_ws_bound(s.drop_first());
        assert forall|i: int| 0 <= i < leading_ws(s) implies unicode_white_space(#[trigger] s[i]) by {
            if i > 0 {
                assert(s[i] == s.drop_first()[i - 1]);
            }
        }
        if leading_ws(s) < s.len() {
            assert(s[leading_ws(s) as int] == s.drop_first()[leading_ws(s.drop_first()) as int]);
        }
    }
}

proof fn lemma_trailing_ws_bound(s: Seq<char>)
    ensures
        trailing_ws(s) <= s.len(),
        forall|i: int|
            s.len() - trailing_ws(s) <= i < s.len() ==> unicode_white_space(#[trigger] s[i]),
        trailing_ws(s) < s.len() ==> !unicode_white_space(s[s.len() - trailing_ws(s) - 1]),
    decreases s.len(),
{
    if s.len() > 0 && unicode_white_space(s.last()) {
        lemma_trailing_ws_bound(s.drop_last());
        assert forall|i: int|
            s.len() - trailing_ws(s) <= i < s.len() implies unicode_white_space(#[trigger] s[i]) by {
            if i < s.len() - 1 {
                assert(s[i] == s.drop_last()[i]);
            }
        }
        if trailing_ws(s) < s.len() {
            assert(s[s.len() - trailing_ws(s) - 1] == s.drop_last()[s.drop_last().len()
                - trailing_ws(s.drop_last()) - 1]);
        }
    }
}

/// Index of the first non-whitespace character of `v[lo..hi]`, or `hi`.
fn skip_leading_ws(v: &Vec<char>, lo: usize, hi: usize) -> (k: usize)
    requires
        lo <= hi <= v.len(),
    ensures
        k == lo + leading_ws(v@.subrange(lo as int, hi as int)),
        lo <= k <= hi,
{
    let mut k = lo;
    proof {
        lemma_leading_ws_bound(v@.subrange(lo as int, hi as int));
    }
    while k < hi && is_whitespace(v[k])
        invariant
            lo <= k <= hi <= v.len(),
            leading_ws(v@.subrange(lo as int, hi as int)) == (k - lo) + leading_ws(
                v@.subrange(k as int, hi as int),
            ),
        decreases hi - k,
    {
        proof {
            let t = v@.subrange(k as int, hi as int);
            assert(t.drop_first() =~= v@.subrange(k + 1, hi as int));
        }
        k += 1;
    }
    k
}

/// Index one past the last non-whitespace character of `v[lo..hi]`, or `lo`.
pub fn skip_trailing_ws(v: &Vec<char>, lo: usize, hi: usize) -> (k: usize)
    requires
        lo <= hi <= v.len(),
    ensures
        k == hi - trailing_ws(v@.subrange(lo as int, hi as int)),
        lo <= k <= hi,
{
    let mut k = hi;
    proof {
        lemma_trailing_ws_bound(v@.subrange(lo as int, hi as int));
    }
    while k > lo && is_whitespace(v[k - 1])
        invariant
            lo <= k <= hi <= v.len(),
            trailing_ws(v@.subrange(lo as int, hi as int)) == (hi - k) + trailing_ws(
                v@.subrange(lo as int, k as int),
            ),
        decreases k - lo,
    {
        proof {
            let t = v@.subrange(lo as int, k as int);
            assert(t.drop_last() =~= v@.subrange(lo as int, k - 1));
        }
        k -= 1;
    }
    k
}

/// Bounds `(a, b)` such that `v[a..b]` is `v[lo..hi]` trimmed.
pub fn trim_bounds(v: &Vec<char>, lo: usize, hi: usize) -> (r: (usize, usize))
    requires
        lo <= hi <= v.len(),
    ensures
        lo <= r.0 <= r.1 <= hi,
        r.0 == lo + leading_ws(v@.subrange(lo as int, hi as int)),
        v@.subrange(r.0 as int, r.1 as int) == trim_spec(v@.subrange(lo as int, hi as int)),
{
    let a = skip_leading_ws(v, lo, hi);
    let b = skip_trailing_ws(v, a, hi);
    proof {
        let s = v@.subrange(lo as int, hi as int);
        assert(s.subrange(leading_ws(s) as int, s.len() as int) =~= v@.subrange(a as int, hi as int));
        let t = v@.subrange(a as int, hi as int);
        assert(t.subrange(0, t.len() - trailing_ws(t)) =~= v@.subrange(a as int, b as int));
    }
    (a, b)
}

/// Characters of `v[lo..hi]`.
pub fn slice_chars(v: &Vec<char>, lo: usize, hi: usize) -> (r: Vec<char>)
    requires
        lo <= hi <= v.len(),
    ensures
        r@ == v@.subrange(lo as int, hi as int),
{
    let mut r = Vec::new();
    let mut i = lo;
    while i < hi
        invariant
            lo <= i <= hi <= v.len(),
            r@ == v@.subrange(lo as int, i as int),
        decreases hi - i,
    {
        r.push(v[i]);
        i += 1;
        proof {
            assert(r@ =~= v@.subrange(lo as int, i as int));
        }
    }
    r
}

/// `s.trim()` as an owned string.
pub fn trimmed(s: &str) -> (r: String)
    ensures
        r@ == trim_spec(s@),
{
    let v = chars_of(s);
    let (a, b) = trim_bounds(&v, 0, v.len());
    proof {
        assert(v@.subrange(0, v@.len() as int) =~= v@);
    }
    string_of(&slice_chars(&v, a, b))
}

/// Does `s[at..]` start with `pat`?
pub open spec fn matches_at(s: Seq<char>, at: int, pat: Seq<char>) -> bool {
    0 <= at && at + pat.len() <= s.len() && s.subrange(at, at + pat.len()) == pat
}

/// Does `s` contain `pat` as a contiguous run?
pub open spec fn contains_seq(s: Seq<char>, pat: Seq<char>) -> bool {
    exists|i: int| matches_at(s, i, pat)
}

/// Exact test of `matches_at` on vectors.
pub fn matches_at_exec(v: &Vec<char>, at: usize, pat: &Vec<char>) -> (b: bool)
    ensures
        b == matches_at(v@, at as int, pat@),
{
    if at > v.len() || pat.len() > v.len() - at {
        return false;
    }
    let mut k: usize = 0;
    while k < pat.len()
        invariant
            at + pat.len() <= v.len(),
            k <= pat.len(),
            forall|j: int| 0 <= j < k ==> v@[at + j] == pat@[j],
        decreases pat.len() - k,
    {
        if v[at + k] != pat[k] {
            proof {
                assert(v@.subrange(at as int, at + pat.len())[k as int] != pat@[k as int]);
            }
            return false;
        }
        k += 1;
    }
    proof {
        assert(v@.subrange(at as int, at + pat.len()) =~= pat@);
    }
    true
}

/// First index at or after `from` where `pat` occurs in `v`.
pub fn find_from(v: &Vec<char>, from: usize, pat: &Vec<char>) -> (r: Option<usize>)
    requires
        from <= v.len(),
    ensures
        match r {
            Some(i) => from <= i && matches_at(v@, i as int, pat@) && forall|j: int|
                from <= j < i ==> !matches_at(v@, j, pat@),
            None => forall|j: int| from <= j ==> !matches_at(v@, j, pat@),
        },
{
    let mut i = from;
    loop
        invariant
            from <= i <= v.len(),
            forall|j: int| from <= j < i ==> !matches_at(v@, j, pat@),
        decreases v.len() - i,
    {
        if matches_at_exec(v, i, pat) {
            return Some(i);
        }
        if i == v.len() {
            proof {
                assert forall|j: int| from <= j implies !matches_at(v@, j, pat@) by {
                    if j > i {
                        assert(!(j + pat@.len() <= v@.len()));
                    }
                }
            }
            return None;
        }
        i += 1;
    }
}

/// Last index where `pat` occurs in `v`.
pub fn rfind(v: &Vec<char>, pat: &Vec<char>) -> (r: Option<usize>)
    ensures
        match r {
            Some(i) => matches_at(v@, i as int, pat@) && forall|j: int|
                i < j ==> !matches_at(v@, j, pat@),
            None => forall|j: int| !matches_at(v@, j, pat@),
        },
{
    let mut i = v.len();
    loop
        invariant
            i <= v.len(),
            forall|j: int| i < j ==> !matches_at(v@, j, pat@),
        decreases i,
    {
        if matches_at_exec(v, i, pat) {
            return Some(i);
        }
        if i == 0 {
            return None;
        }
        i -= 1;
    }
}

/// Exact test of `contains_seq`.
pub fn contains_exec(v: &Vec<char>, pat: &Vec<char>) -> (b: bool)
    ensures
        b == contains_seq(v@, pat@),
{
    match find_from(v, 0, pat) {
        Some(_) => true,
        None => false,
    }
}

} // verus!
