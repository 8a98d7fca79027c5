//! Small shared helpers: JSON extraction from model output, string
//! normalization for track matching, and duration rendering.

use vstd::prelude::*;

use crate::text::{
    chars_of, contains_exec, contains_seq, decimal, decimal_2, find_from, leading_ws, matches_at,
    push_char, push_decimal, push_decimal_2, rfind, skip_trailing_ws, slice_chars, string_of,
    to_lowercase, trim_bounds, trim_end_spec, trim_spec, trim_start_spec, unicode_alphanumeric,
    unicode_lowercase, is_alphanumeric,
};

verus! {

// ---------------------------------------------------------------------
// First index satisfying a predicate
// ---------------------------------------------------------------------
/// The least `i` in `from..end` with `p(i)`, if any.
pub open spec fn first_from(p: spec_fn(int) -> bool, from: int, end: int) -> Option<int>
    decreases end - from,
{
    if from >= end {
        None
    } else if p(from) {
        Some(from)
    } else {
        first_from(p, from + 1, end)
    }
}

pub proof fn lemma_first_from_found(p: spec_fn(int) -> bool, from: int, end: int, i: int)
    requires
        from <= i < end,
        p(i),
        forall|j: int| from <= j < i ==> !#[trigger] p(j),
    ensures
        first_from(p, from, end) == Some(i),
    decreases i - from,
{
    if from < i {
        lemma_first_from_found(p, from + 1, end, i);
    }
}

pub proof fn lemma_first_from_none(p: spec_fn(int) -> bool, from: int, end: int)
    requires
        forall|j: int| from <= j < end ==> !#[trigger] p(j),
    ensures
        first_from(p, from, end) is None,
    decreases end - from,
{
    if from < end {
        lemma_first_from_none(p, from + 1, end);
    }
}

/// First occurrence of `pat` in `s` at or after `from`.
pub open spec fn match_pred(s: Seq<char>, pat: Seq<char>) -> spec_fn(int) -> bool {
    |i: int| matches_at(s, i, pat)
}

/// First occurrence of `pat` in `s` at or after `from`.
pub open spec fn find_first(s: Seq<char>, pat: Seq<char>, from: int) -> Option<int> {
    first_from(match_pred(s, pat), from, s.len() as int + 1)
}

/// `find_from` computes `find_first`.
pub fn find_first_exec(v: &Vec<char>, from: usize, pat: &Vec<char>) -> (r: Option<usize>)
    requires
        from <= v.len(),
    ensures
        match r {
            Some(i) => find_first(v@, pat@, from as int) == Some(i as int) && matches_at(
                v@,
                i as int,
                pat@,
            ) && from <= i <= v@.len(),
            None => find_first(v@, pat@, from as int) is None,
        },
{
    let r = find_from(v, from, pat);
    proof {
        let p = match_pred(v@, pat@);
        match r {
            Some(i) => {
                assert(i <= v@.len()) by {
                    assert(matches_at(v@, i as int, pat@));
                }
                lemma_first_from_found(p, from as int, v@.len() as int + 1, i as int);
            },
            None => {
                lemma_first_from_none(p, from as int, v@.len() as int + 1);
            },
        }
    }
    r
}

// ---------------------------------------------------------------------
// JSON extraction
// ---------------------------------------------------------------------
pub open spec fn fence() -> Seq<char> {
    seq!['`', '`', '`']
}

pub open spec fn json_fence() -> Seq<char> {
    seq!['`', '`', '`', 'j', 's', 'o', 'n']
}

/// The body of the first block opened by `opener` in `t`: the text after
/// the rest of the opener's line up to the next closing fence, trimmed.
pub open spec fn fenced_block_spec(t: Seq<char>, opener: Seq<char>) -> Option<Seq<char>> {
    match find_first(t, opener, 0) {
        None => None,
        Some(o) => match find_first(t, seq!['\n'], o + opener.len()) {
            None => None,
            Some(nl) => match find_first(t, fence(), nl + 1) {
                None => None,
                Some(e) => Some(trim_spec(t.subrange(nl + 1, e))),
            },
        },
    }
}

/// Where the JSON scanner stands after some characters.
pub ghost struct ScanState {
    pub depth: int,
    pub in_string: bool,
    pub escaped: bool,
}

pub open spec fn is_open_bracket(c: char) -> bool {
    c == '{' || c == '['
}

pub open spec fn is_close_bracket(c: char) -> bool {
    c == '}' || c == ']'
}

/// One step of the scanner: strings (with backslash escapes) hide
/// brackets; outside strings, brackets change the nesting depth.
pub open spec fn scan_step(st: ScanState, c: char) -> ScanState {
    if st.in_string {
        if st.escaped {
            ScanState { escaped: false, ..st }
        } else if c == '\\' {
            ScanState { escaped: true, ..st }
        } else if c == '"' {
            ScanState { in_string: false, ..st }
        } else {
            st
        }
    } else if c == '"' {
        ScanState { in_string: true, ..st }
    } else if is_open_bracket(c) {
        ScanState { depth: st.depth + 1, ..st }
    } else if is_close_bracket(c) {
        ScanState { depth: st.depth - 1, ..st }
    } else {
        st
    }
}

/// Scanner state after reading `t[start..i]`.
pub open spec fn scan_state(t: Seq<char>, start: int, i: int) -> ScanState
    decreases i - start,
{
    if i <= start {
        ScanState { depth: 0, in_string: false, escaped: false }
    } else {
        scan_step(scan_state(t, start, i - 1), t[i - 1])
    }
}

/// The character at `i` closes the value that began at `start`.
pub open spec fn closes_at(t: Seq<char>, start: int, i: int) -> bool {
    let st = scan_state(t, start, i);
    0 <= i < t.len() && !st.in_string && is_close_bracket(t[i]) && st.depth == 1
}

pub open spec fn open_pred(t: Seq<char>) -> spec_fn(int) -> bool {
    |i: int| is_open_bracket(t[i])
}

pub open spec fn close_pred(t: Seq<char>, start: int) -> spec_fn(int) -> bool {
    |i: int| closes_at(t, start, i)
}

/// The first balanced `{...}` or `[...]` region of `t`, if any.
pub open spec fn balanced_json_spec(t: Seq<char>) -> Option<Seq<char>> {
    match first_from(open_pred(t), 0, t.len() as int) {
        None => None,
        Some(s) => match first_from(close_pred(t, s), s, t.len() as int) {
            None => None,
            Some(e) => Some(t.subrange(s, e + 1)),
        },
    }
}

/// `s` with leading whitespace removed starts with `{` or `[`.
pub open spec fn json_shaped(s: Seq<char>) -> bool {
    let t = trim_start_spec(s);
    t.len() > 0 && is_open_bracket(t[0])
}

/// What [`extract_json`] returns for text `t`.
pub open spec fn extract_json_spec(t: Seq<char>) -> Option<Seq<char>> {
    match fenced_block_spec(t, json_fence()) {
        Some(b) => Some(b),
        None => match fenced_block_spec(t, fence()) {
            Some(b) if json_shaped(b) => Some(b),
            _ => balanced_json_spec(t),
        },
    }
}

fn fence_chars() -> (v: Vec<char>)
    ensures
        v@ == fence(),
{
    let mut v = Vec::new();
    v.push('`');
    v.push('`');
    v.push('`');
    proof {
        assert(v@ =~= fence());
    }
    v
}

fn json_fence_chars() -> (v: Vec<char>)
    ensures
        v@ == json_fence(),
{
    let mut v = fence_chars();
    v.push('j');
    v.push('s');
    v.push('o');
    v.push('n');
    proof {
        assert(v@ =~= json_fence());
    }
    v
}

/// The body of the first fenced block opened by `opener` (see
/// [`fenced_block_spec`]).
fn fenced_block(t: &Vec<char>, opener: &Vec<char>) -> (r: Option<Vec<char>>)
    ensures
        match r {
            Some(b) => fenced_block_spec(t@, opener@) == Some(b@),
            None => fenced_block_spec(t@, opener@) is None,
        },
{
    let o = match find_first_exec(t, 0, opener) {
        Some(o) => o,
        None => return None,
    };
    proof {
        assert(matches_at(t@, o as int, opener@));
        assert(o + opener@.len() <= t@.len());
    }
    let olen = opener.len();
    assert(o + olen <= t.len());
    let start = o + olen;
    let mut newline = Vec::new();
    newline.push('\n');
    proof {
        assert(newline@ =~= seq!['\n']);
    }
    let nl = match find_first_exec(t, start, &newline) {
        Some(nl) => nl,
        None => return None,
    };
    proof {
        assert(nl < t@.len());
    }
    let body_start = nl + 1;
    let e = match find_first_exec(t, body_start, &fence_chars()) {
        Some(e) => e,
        None => return None,
    };
    let (a, b) = trim_bounds(t, body_start, e);
    Some(slice_chars(t, a, b))
}

pub proof fn lemma_first_from_holds(p: spec_fn(int) -> bool, from: int, end: int)
    requires
        first_from(p, from, end) is Some,
    ensures
        p(first_from(p, from, end).unwrap()),
        from <= first_from(p, from, end).unwrap() < end,
    decreases end - from,
{
    if from < end && !p(from) {
        lemma_first_from_holds(p, from + 1, end);
    }
}

pub proof fn lemma_first_from_range(p: spec_fn(int) -> bool, from: int, end: int)
    requires
        first_from(p, from, end) is Some,
    ensures
        from <= first_from(p, from, end).unwrap() < end,
        forall|j: int| from <= j < first_from(p, from, end).unwrap() ==> !#[trigger] p(j),
    decreases end - from,
{
    if from < end && !p(from) {
        lemma_first_from_range(p, from + 1, end);
    }
}

/// Scan for the first balanced JSON object or array, respecting strings and
/// escape sequences (see [`balanced_json_spec`]).
fn balanced_json(t: &Vec<char>) -> (r: Option<Vec<char>>)
    ensures
        match r {
            Some(b) => balanced_json_spec(t@) == Some(b@),
            None => balanced_json_spec(t@) is None,
        },
{
    let n = t.len();
    let ghost popen = open_pred(t@);
    // Position of the first opening bracket.
    let mut start: usize = 0;
    while start < n && !(t[start] == '{' || t[start] == '[')
        invariant
            start <= n == t@.len(),
            popen == open_pred(t@),
            forall|j: int| 0 <= j < start ==> !#[trigger] popen(j),
        decreases n - start,
    {
        proof {
            assert(!is_open_bracket(t@[start as int]));
            assert(!popen(start as int));
        }
        start += 1;
    }
    if start == n {
        proof {
            lemma_first_from_none(popen, 0, n as int);
        }
        return None;
    }
    proof {
        lemma_first_from_found(popen, 0, n as int, start as int);
    }
    let ghost pclose = close_pred(t@, start as int);
    let mut depth: usize = 0;
    let mut in_string = false;
    let mut escaped = false;
    let mut i = start;
    while i < n
        invariant
            start <= i <= n == t@.len(),
            start < n,
            is_open_bracket(t@[start as int]),
            scan_state(t@, start as int, i as int) == (ScanState {
                depth: depth as int,
                in_string,
                escaped,
            }),
            i > start ==> depth >= 1,
            depth <= i - start,
            forall|j: int| start <= j < i ==> !#[trigger] pclose(j),
            pclose == close_pred(t@, start as int),
            first_from(open_pred(t@), 0, n as int) == Some(start as int),
        decreases n - i,
    {
        let c = t[i];
        proof {
            assert(scan_state(t@, start as int, i + 1) == scan_step(
                scan_state(t@, start as int, i as int),
                c,
            ));
            if i == start {
                assert(!in_string && depth == 0);
            }
        }
        if in_string {
            if escaped {
                escaped = false;
            } else if c == '\\' {
                escaped = true;
            } else if c == '"' {
                in_string = false;
            }
        } else if c == '"' {
            in_string = true;
        } else if c == '{' || c == '[' {
            depth += 1;
        } else if c == '}' || c == ']' {
            if depth == 1 {
                proof {
                    assert(pclose(i as int));
                    lemma_first_from_found(pclose, start as int, n as int, i as int);
                }
                return Some(slice_chars(t, start, i + 1));
            }
            proof {
                assert(i > start);
            }
            depth -= 1;
        }
        proof {
            assert(!pclose(i as int));
        }
        i += 1;
    }
    proof {
        lemma_first_from_none(pclose, start as int, n as int);
    }
    None
}

/// Extract the first JSON value embedded in free-form model output.
///
/// Preference order:
/// 1. a fenced ```json ... ``` block,
/// 2. any fenced ``` ... ``` block that starts with `{` or `[`,
/// 3. the first balanced `{...}` or `[...]` region in the raw text.
pub fn extract_json(text: &str) -> (r: Option<String>)
    ensures
        match r {
            Some(s) => extract_json_spec(text@) == Some(s@),
            None => extract_json_spec(text@) is None,
        },
{
    let t = chars_of(text);
    if let Some(block) = fenced_block(&t, &json_fence_chars()) {
        return Some(string_of(&block));
    }
    if let Some(block) = fenced_block(&t, &fence_chars()) {
        let (a, _b) = trim_bounds(&block, 0, block.len());
        proof {
            assert(block@.subrange(0, block@.len() as int) =~= block@);
            if a < block.len() {
                assert(trim_start_spec(block@)[0] == block@[a as int]);
            }
        }
        if a < block.len() && (block[a] == '{' || block[a] == '[') {
            return Some(string_of(&block));
        }
    }
    match balanced_json(&t) {
        Some(b) => Some(string_of(&b)),
        None => None,
    }
}


// ---------------------------------------------------------------------
// Title normalization
// ---------------------------------------------------------------------
/// Characters kept outside brackets, and the bracket depth, after reading
/// `s`: `(`/`[` open, `)`/`]` close (never below zero).
pub open spec fn strip_state(s: Seq<char>) -> (Seq<char>, nat)
    decreases s.len(),
{
    if s.len() == 0 {
        (Seq::empty(), 0)
    } else {
        let prev = strip_state(s.drop_last());
        let c = s.last();
        if c == '(' || c == '[' {
            (prev.0, prev.1 + 1)
        } else if c == ')' || c == ']' {
            (prev.0, if prev.1 > 0 {
                (prev.1 - 1) as nat
            } else {
                0
            })
        } else if prev.1 == 0 {
            (prev.0.push(c), prev.1)
        } else {
            prev
        }
    }
}

/// The last index `j <= i` with `p(j)`, if any.
pub open spec fn last_from(p: spec_fn(int) -> bool, i: int) -> Option<int>
    decreases i + 1,
{
    if i < 0 {
        None
    } else if p(i) {
        Some(i)
    } else {
        last_from(p, i - 1)
    }
}

/// Last occurrence of `pat` in `s`.
pub open spec fn find_last(s: Seq<char>, pat: Seq<char>) -> Option<int> {
    last_from(match_pred(s, pat), s.len() as int)
}

pub proof fn lemma_last_from_found(p: spec_fn(int) -> bool, i: int, k: int)
    requires
        0 <= k <= i,
        p(k),
        forall|j: int| k < j <= i ==> !#[trigger] p(j),
    ensures
        last_from(p, i) == Some(k),
    decreases i - k,
{
    if k < i {
        lemma_last_from_found(p, i - 1, k);
    }
}

pub proof fn lemma_last_from_none(p: spec_fn(int) -> bool, i: int)
    requires
        forall|j: int| 0 <= j <= i ==> !#[trigger] p(j),
    ensures
        last_from(p, i) is None,
    decreases i + 1,
{
    if i >= 0 {
        lemma_last_from_none(p, i - 1);
    }
}

pub open spec fn dash_separator() -> Seq<char> {
    seq![' ', '-', ' ']
}

/// The (lowercased) tail names a version qualifier.
pub open spec fn has_qualifier(tail: Seq<char>) -> bool {
    ||| contains_seq(tail, "remaster"@)
    ||| contains_seq(tail, "remastered"@)
    ||| contains_seq(tail, "live"@)
    ||| contains_seq(tail, "mono"@)
    ||| contains_seq(tail, "stereo"@)
    ||| contains_seq(tail, "single version"@)
    ||| contains_seq(tail, "radio edit"@)
    ||| contains_seq(tail, "deluxe"@)
    ||| contains_seq(tail, "bonus"@)
    ||| contains_seq(tail, "edit"@)
}

/// Cut a trailing " - <qualifier>" after the last " - ", if the tail names
/// a version qualifier.
pub open spec fn drop_qualifier(s: Seq<char>) -> Seq<char> {
    match find_last(s, dash_separator()) {
        Some(idx) => if has_qualifier(unicode_lowercase(s.subrange(idx + 3, s.len() as int))) {
            s.subrange(0, idx)
        } else {
            s
        },
        None => s,
    }
}

/// Alphanumeric runs kept, every other run of characters turned into one
/// space (none at the very start), and whether the last output was a space.
pub open spec fn collapse_state(s: Seq<char>) -> (Seq<char>, bool)
    decreases s.len(),
{
    if s.len() == 0 {
        (Seq::empty(), true)
    } else {
        let prev = collapse_state(s.drop_last());
        let c = s.last();
        if unicode_alphanumeric(c) {
            (prev.0.push(c), false)
        } else if !prev.1 {
            (prev.0.push(' '), true)
        } else {
            prev
        }
    }
}

/// What [`normalize_for_match`] returns for `s`.
pub open spec fn normalize_spec(s: Seq<char>) -> Seq<char> {
    trim_end_spec(collapse_state(unicode_lowercase(drop_qualifier(strip_state(s).0))).0)
}

fn has_qualifier_exec(tail: &Vec<char>) -> (b: bool)
    ensures
        b == has_qualifier(tail@),
{
    contains_exec(tail, &chars_of("remaster")) || contains_exec(tail, &chars_of("remastered"))
        || contains_exec(tail, &chars_of("live")) || contains_exec(tail, &chars_of("mono"))
        || contains_exec(tail, &chars_of("stereo")) || contains_exec(
        tail,
        &chars_of("single version"),
    ) || contains_exec(tail, &chars_of("radio edit")) || contains_exec(
        tail,
        &chars_of("deluxe"),
    ) || contains_exec(tail, &chars_of("bonus")) || contains_exec(tail, &chars_of("edit"))
}

fn lowercase_chars(v: &Vec<char>) -> (r: Vec<char>)
    ensures
        r@ == unicode_lowercase(v@),
{
    let s = string_of(v);
    let l = to_lowercase(s.as_str());
    chars_of(l.as_str())
}

/// Normalize a track title or artist name for fuzzy matching: lowercase,
/// drop parenthesized/bracketed qualifiers ("(feat. X)", "[Remastered]"),
/// drop a trailing " - ..." qualifier (e.g. "- 2011 Remaster"), strip
/// punctuation, collapse whitespace.
pub fn normalize_for_match(s: &str) -> (r: String)
    ensures
        r@ == normalize_spec(s@),
{
    let chars = chars_of(s);
    // Drop bracketed qualifiers.
    let mut out: Vec<char> = Vec::new();
    let mut depth: usize = 0;
    let mut i: usize = 0;
    while i < chars.len()
        invariant
            i <= chars@.len(),
            depth <= i,
            strip_state(chars@.take(i as int)) == (out@, depth as nat),
        decreases chars@.len() - i,
    {
        let c = chars[i];
        proof {
            assert(chars@.take(i + 1).drop_last() =~= chars@.take(i as int));
        }
        if c == '(' || c == '[' {
            depth += 1;
        } else if c == ')' || c == ']' {
            if depth > 0 {
                depth -= 1;
            }
        } else if depth == 0 {
            out.push(c);
        }
        i += 1;
    }
    proof {
        assert(chars@.take(chars@.len() as int) =~= chars@);
    }
    // Drop a trailing version qualifier after the last " - ".
    let mut sep = Vec::new();
    sep.push(' ');
    sep.push('-');
    sep.push(' ');
    proof {
        assert(sep@ =~= dash_separator());
    }
    let ghost stripped = out@;
    match rfind(&out, &sep) {
        Some(idx) => {
            proof {
                lemma_last_from_found(match_pred(out@, sep@), out@.len() as int, idx as int);
                assert(matches_at(out@, idx as int, sep@));
                assert(idx + 3 <= out@.len());
            }
            assert(idx + 3 <= out.len());
            let tail_start = idx + 3;
            let tail = lowercase_chars(&slice_chars(&out, tail_start, out.len()));
            if has_qualifier_exec(&tail) {
                out.truncate(idx);
                proof {
                    assert(out@ =~= stripped.subrange(0, idx as int));
                }
            }
        },
        None => {
            proof {
                lemma_last_from_none(match_pred(out@, sep@), out@.len() as int);
            }
        },
    }
    let lowered = lowercase_chars(&out);
    // Keep alphanumeric runs, turn every other run into one space.
    let mut norm: Vec<char> = Vec::new();
    let mut last_was_space = true;
    let mut k: usize = 0;
    while k < lowered.len()
        invariant
            k <= lowered@.len(),
            collapse_state(lowered@.take(k as int)) == (norm@, last_was_space),
        decreases lowered@.len() - k,
    {
        let c = lowered[k];
        proof {
            assert(lowered@.take(k + 1).drop_last() =~= lowered@.take(k as int));
        }
        if is_alphanumeric(c) {
            norm.push(c);
            last_was_space = false;
        } else if !last_was_space {
            norm.push(' ');
            last_was_space = true;
        }
        k += 1;
    }
    proof {
        assert(lowered@.take(lowered@.len() as int) =~= lowered@);
    }
    let end = skip_trailing_ws(&norm, 0, norm.len());
    proof {
        assert(norm@.subrange(0, norm@.len() as int) =~= norm@);
    }
    string_of(&slice_chars(&norm, 0, end))
}

// ---------------------------------------------------------------------
// Durations
// ---------------------------------------------------------------------
/// What [`format_duration_ms`] returns: `m:ss`, or `h:mm:ss` from one hour
/// up, for the whole seconds in `ms` milliseconds.
pub open spec fn duration_text(ms: nat) -> Seq<char> {
    let total = ms / 1000;
    let h = total / 3600;
    let m = (total % 3600) / 60;
    let s = total % 60;
    if h > 0 {
        decimal(h) + seq![':'] + decimal_2(m) + seq![':'] + decimal_2(s)
    } else {
        decimal(m) + seq![':'] + decimal_2(s)
    }
}

/// `mm:ss` / `h:mm:ss` rendering for track durations.
pub fn format_duration_ms(ms: u64) -> (r: String)
    ensures
        r@ == duration_text(ms as nat),
{
    let total_secs = ms / 1000;
    let h = total_secs / 3600;
    let m = (total_secs % 3600) / 60;
    let s = total_secs % 60;
    let mut out = String::new();
    if h > 0 {
        push_decimal(&mut out, h);
        push_char(&mut out, ':');
        push_decimal_2(&mut out, m);
        push_char(&mut out, ':');
        push_decimal_2(&mut out, s);
    } else {
        push_decimal(&mut out, m);
        push_char(&mut out, ':');
        push_decimal_2(&mut out, s);
    }
    proof {
        assert(out@ =~= duration_text(ms as nat));
    }
    out
}
} // verus!
