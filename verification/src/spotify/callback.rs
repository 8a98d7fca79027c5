//! The URLs of the PKCE flow: the authorization request the browser opens,
//! and the one request that comes back to the loopback listener (its
//! request line, its query, and what to answer).
//!
//! The application accepts the connection, reads the request head and
//! writes the answer; this module decides.

use vstd::prelude::*;

use super::auth::{callback_outcome, scope_parameter, scopes, AuthError, CallbackOutcome};
use crate::ai::prompts::join;
use crate::text::{
    chars_of, is_whitespace, matches_at, owned, push_str, slice_chars, str_eq, string_of,
    unicode_white_space,
};
use crate::util::{first_from, lemma_first_from_found, lemma_first_from_none};

verus! {

/// `url::Url::parse(url)`: the URL's query pairs, percent-decoded and in
/// order, or the text of the parse error.
pub uninterp spec fn parsed_query(url: Seq<char>) -> Result<Seq<(Seq<char>, Seq<char>)>, Seq<char>>;

/// The characters of each (key, value) pair.
pub open spec fn pair_views(v: Seq<(String, String)>) -> Seq<(Seq<char>, Seq<char>)> {
    v.map_values(|p: (String, String)| (p.0@, p.1@))
}

/// `url::Url::parse` followed by `query_pairs`, each pair taken as owned
/// strings; a parse failure is returned as the error's text.
#[verifier::external_body]
fn query_pairs_of(url: &str) -> (r: Result<Vec<(String, String)>, String>)
    ensures
        match r {
            Ok(v) => parsed_query(url@) == Ok::<Seq<(Seq<char>, Seq<char>)>, Seq<char>>(pair_views(v@)),
            Err(e) => parsed_query(url@) == Err::<Seq<(Seq<char>, Seq<char>)>, Seq<char>>(e@),
        },
{
    match url::Url::parse(url) {
        Ok(u) => Ok(u.query_pairs().map(|(k, v)| (k.into_owned(), v.into_owned())).collect()),
        Err(e) => Err(e.to_string()),
    }
}

/// Spotify's authorization endpoint.
pub const AUTHORIZE_URL: &'static str = "https://accounts.spotify.com/authorize";

/// `url::Url::parse_with_params(base, params)` rendered as a string, or
/// `None` when `base` does not parse.
pub uninterp spec fn url_with_params(base: Seq<char>, params: Seq<(Seq<char>, Seq<char>)>) -> Option<Seq<char>>;

/// `url::Url::parse_with_params` followed by `to_string`; a parse failure
/// is `None`.
#[verifier::external_body]
fn with_params(base: &str, params: &Vec<(String, String)>) -> (r: Option<String>)
    ensures
        match r {
            Some(u) => url_with_params(base@, pair_views(params@)) == Some(u@),
            None => url_with_params(base@, pair_views(params@)) is None,
        },
{
    match url::Url::parse_with_params(base, params.iter().map(|(k, v)| (k.as_str(), v.as_str()))) {
        Ok(u) => Some(u.to_string()),
        Err(_) => None,
    }
}

/// The query of the authorization request, in order.
pub open spec fn authorize_params(
    client_id: Seq<char>,
    redirect_uri: Seq<char>,
    state: Seq<char>,
    challenge: Seq<char>,
) -> Seq<(Seq<char>, Seq<char>)> {
    seq![
        ("client_id"@, client_id),
        ("response_type"@, "code"@),
        ("redirect_uri"@, redirect_uri),
        ("state"@, state),
        ("scope"@, join(scopes(), " "@)),
        ("code_challenge_method"@, "S256"@),
        ("code_challenge"@, challenge),
    ]
}

fn pair(k: &str, v: &str) -> (p: (String, String))
    ensures
        p.0@ == k@,
        p.1@ == v@,
{
    (owned(k), owned(v))
}

/// The URL the browser opens to authorize the app: the authorization
/// endpoint with the PKCE query (S256 challenge, the CSRF `state`, the
/// minimal scopes). `None` only if the endpoint failed to parse.
pub fn authorize_url(client_id: &str, redirect_uri: &str, state: &str, challenge: &str) -> (r: Option<String>)
    ensures
        match r {
            Some(u) => url_with_params(AUTHORIZE_URL@, authorize_params(client_id@, redirect_uri@, state@, challenge@))
                == Some(u@),
            None => url_with_params(AUTHORIZE_URL@, authorize_params(client_id@, redirect_uri@, state@, challenge@))
                is None,
        },
{
    let scope = scope_parameter();
    let mut params: Vec<(String, String)> = Vec::new();
    params.push(pair("client_id", client_id));
    params.push(pair("response_type", "code"));
    params.push(pair("redirect_uri", redirect_uri));
    params.push(pair("state", state));
    params.push(pair("scope", scope.as_str()));
    params.push(pair("code_challenge_method", "S256"));
    params.push(pair("code_challenge", challenge));
    proof {
        assert(pair_views(params@) =~= authorize_params(client_id@, redirect_uri@, state@, challenge@));
    }
    with_params(AUTHORIZE_URL, &params)
}

/// The value of the last pair with key `key`: a later value of a repeated
/// key replaces an earlier one.
pub open spec fn last_value(pairs: Seq<(Seq<char>, Seq<char>)>, key: Seq<char>) -> Option<Seq<char>>
    decreases pairs.len(),
{
    if pairs.len() == 0 {
        None
    } else if pairs.last().0 == key {
        Some(pairs.last().1)
    } else {
        last_value(pairs.drop_last(), key)
    }
}

/// `i` if present, else `end`.
pub open spec fn or_end(o: Option<int>, end: int) -> int {
    match o {
        Some(i) => i,
        None => end,
    }
}

pub open spec fn newline_at(s: Seq<char>) -> spec_fn(int) -> bool {
    |i: int| s[i] == '\n'
}

pub open spec fn white_at(s: Seq<char>) -> spec_fn(int) -> bool {
    |i: int| unicode_white_space(s[i])
}

pub open spec fn non_white_at(s: Seq<char>) -> spec_fn(int) -> bool {
    |i: int| !unicode_white_space(s[i])
}

/// The request line: everything before the first line feed.
pub open spec fn request_line(head: Seq<char>) -> Seq<char> {
    head.take(or_end(first_from(newline_at(head), 0, head.len() as int), head.len() as int))
}

/// The whitespace-separated token of `s` that starts at or after `from`
/// (empty when there is none), and the index just past it.
pub open spec fn token_from(s: Seq<char>, from: int) -> (Seq<char>, int) {
    let a = or_end(first_from(non_white_at(s), from, s.len() as int), s.len() as int);
    let b = or_end(first_from(white_at(s), a, s.len() as int), s.len() as int);
    (s.subrange(a, b), b)
}

/// The method of the request: the request line's first token.
pub open spec fn request_method(head: Seq<char>) -> Seq<char> {
    token_from(request_line(head), 0).0
}

/// The target of the request: the request line's second token.
pub open spec fn request_target(head: Seq<char>) -> Seq<char> {
    let line = request_line(head);
    token_from(line, token_from(line, 0).1).0
}

/// A `GET` of the callback path.
pub open spec fn is_callback(method: Seq<char>, target: Seq<char>) -> bool {
    method == "GET"@ && matches_at(target, 0, "/callback"@)
}

/// `o` is the decision for a callback carrying these `state`, `error` and
/// `code` values.
pub open spec fn decides(
    o: CallbackOutcome,
    state: Option<Seq<char>>,
    error: Option<Seq<char>>,
    code: Option<Seq<char>>,
    expected_state: Seq<char>,
) -> bool {
    if state == Some(expected_state) {
        match error {
            Some(e) => o matches CallbackOutcome::Denied(d) && d@ == e,
            None => match code {
                Some(c) => o matches CallbackOutcome::Code(x) && x@ == c,
                None => o is MissingCode,
            },
        }
    } else {
        o is StateMismatch
    }
}

/// The first index at or after `from` whose character is (`white`) or is
/// not (`!white`) whitespace, or the length.
fn scan_white(v: &Vec<char>, from: usize, white: bool) -> (r: usize)
    requires
        from <= v@.len(),
    ensures
        r == or_end(
            first_from(if white { white_at(v@) } else { non_white_at(v@) }, from as int, v@.len() as int),
            v@.len() as int,
        ),
        from <= r <= v@.len(),
{
    let ghost p = if white { white_at(v@) } else { non_white_at(v@) };
    let mut i = from;
    while i < v.len()
        invariant
            from <= i <= v@.len(),
            p == (if white { white_at(v@) } else { non_white_at(v@) }),
            forall|j: int| from <= j < i ==> !#[trigger] p(j),
        decreases v@.len() - i,
    {
        if is_whitespace(v[i]) == white {
            proof {
                lemma_first_from_found(p, from as int, v@.len() as int, i as int);
            }
            return i;
        }
        i += 1;
    }
    proof {
        lemma_first_from_none(p, from as int, v@.len() as int);
    }
    i
}

/// The request line of `head`.
fn request_line_of(head: &Vec<char>) -> (r: Vec<char>)
    ensures
        r@ == request_line(head@),
{
    let ghost p = newline_at(head@);
    let mut i: usize = 0;
    while i < head.len()
        invariant
            i <= head@.len(),
            p == newline_at(head@),
            forall|j: int| 0 <= j < i ==> !#[trigger] p(j),
        decreases head@.len() - i,
    {
        if head[i] == '\n' {
            proof {
                lemma_first_from_found(p, 0, head@.len() as int, i as int);
            }
            return slice_chars(head, 0, i);
        }
        i += 1;
    }
    proof {
        lemma_first_from_none(p, 0, head@.len() as int);
    }
    slice_chars(head, 0, head.len())
}

/// The token of `line` at or after `from`, and the index past it.
fn token_at(line: &Vec<char>, from: usize) -> (r: (Vec<char>, usize))
    requires
        from <= line@.len(),
    ensures
        r.0@ == token_from(line@, from as int).0,
        r.1 as int == token_from(line@, from as int).1,
        r.1 <= line@.len(),
{
    let a = scan_white(line, from, false);
    let b = scan_white(line, a, true);
    (slice_chars(line, a, b), b)
}

/// The value of the last pair keyed `key`.
fn last_value_of(pairs: &Vec<(String, String)>, key: &str) -> (r: Option<String>)
    ensures
        match r {
            Some(v) => last_value(pair_views(pairs@), key@) == Some(v@),
            None => last_value(pair_views(pairs@), key@) is None,
        },
{
    let mut found: Option<String> = None;
    let mut i: usize = 0;
    while i < pairs.len()
        invariant
            i <= pairs@.len(),
            match found {
                Some(v) => last_value(pair_views(pairs@).take(i as int), key@) == Some(v@),
                None => last_value(pair_views(pairs@).take(i as int), key@) is None,
            },
        decreases pairs@.len() - i,
    {
        proof {
            assert(pair_views(pairs@).take(i + 1).drop_last() =~= pair_views(pairs@).take(i as int));
        }
        if str_eq(pairs[i].0.as_str(), key) {
            found = Some(pairs[i].1.clone());
        }
        i += 1;
    }
    proof {
        assert(pair_views(pairs@).take(pairs@.len() as int) =~= pair_views(pairs@));
    }
    found
}

/// Decide on the request whose head is `head`: nothing read is ignored, a
/// request other than a `GET` of the callback path is answered 404, a
/// callback whose target does not parse is a token error, and a callback
/// that parses is decided by its `state`, `error` and `code` query values
/// (the last value of a repeated key wins).
pub fn callback_request(head: &str, expected_state: &str) -> (r: Result<CallbackOutcome, AuthError>)
    ensures
        head@.len() == 0 ==> r matches Ok(CallbackOutcome::Empty),
        head@.len() > 0 && !is_callback(request_method(head@), request_target(head@)) ==> r matches Ok(
            CallbackOutcome::NotCallback,
        ),
        head@.len() > 0 && is_callback(request_method(head@), request_target(head@)) ==> match parsed_query(
            "http://127.0.0.1"@ + request_target(head@),
        ) {
            Err(e) => r matches Err(AuthError::Token(m)) && m@ == "unparsable callback: "@ + e,
            Ok(pairs) => r matches Ok(o) && decides(
                o,
                last_value(pairs, "state"@),
                last_value(pairs, "error"@),
                last_value(pairs, "code"@),
                expected_state@,
            ),
        },
{
    let h = chars_of(head);
    if h.len() == 0 {
        return Ok(CallbackOutcome::Empty);
    }
    let line = request_line_of(&h);
    let (m, after) = token_at(&line, 0);
    let (t, _) = token_at(&line, after);
    let method = string_of(&m);
    let target = string_of(&t);
    let prefix = chars_of("/callback");
    let is_get = str_eq(method.as_str(), "GET");
    if !is_get || !crate::text::matches_at_exec(&t, 0, &prefix) {
        return Ok(CallbackOutcome::NotCallback);
    }
    let mut url = owned("http://127.0.0.1");
    push_str(&mut url, target.as_str());
    match query_pairs_of(url.as_str()) {
        Err(e) => {
            let mut msg = owned("unparsable callback: ");
            push_str(&mut msg, e.as_str());
            Err(AuthError::Token(msg))
        },
        Ok(pairs) => {
            let code = last_value_of(&pairs, "code");
            let state = last_value_of(&pairs, "state");
            let error = last_value_of(&pairs, "error");
            let o = callback_outcome(method.as_str(), target.as_str(), code, state, error, expected_state);
            Ok(o)
        },
    }
}

} // verus!
