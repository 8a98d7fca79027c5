//! Authorization Code with PKCE for a native desktop app: the token state,
//! its expiry and rotation rules, the PKCE challenge, and the decisions of
//! the loopback callback. The browser hand-off, the listener and the token
//! endpoint calls live in the application.
//!
//! Current Spotify rules this implements:
//! * No client secret — PKCE only. The client id is not a secret.
//! * Redirect URIs must be the explicit loopback IP
//!   (`http://127.0.0.1:<port>/callback`), never `localhost`.
//! * Refresh tokens rotate: every refresh may return a new refresh token
//!   which must replace the stored one.

use vstd::prelude::*;

use base64::Engine;
use base64::engine::general_purpose::URL_SAFE_NO_PAD;
use rand::TryRngCore;
use rand::rngs::OsRng;
use sha2::{Digest, Sha256};

use crate::text::{chars_of, contains_exec, contains_seq, owned, push_str};
use vstd::string::StringSliceAdditionalSpecFns;

verus! {

#[verifier::external_type_specification]
#[verifier::external_body]
pub struct ExPathBuf(std::path::PathBuf);

/// `PathBuf::clone`: a copy of the path; nothing is claimed of it, since a
/// `PathBuf` is opaque here.
pub assume_specification[ <std::path::PathBuf as std::clone::Clone>::clone ](
    p: &std::path::PathBuf,
) -> std::path::PathBuf;

/// Everything this app ever asks for (deliberately minimal: no
/// `user-library-modify`, no playback scopes, no image upload).
pub open spec fn scopes() -> Seq<Seq<char>> {
    seq![
        "playlist-read-private"@,
        "playlist-read-collaborative"@,
        "playlist-modify-public"@,
        "playlist-modify-private"@,
        "user-library-read"@,
        "user-top-read"@,
        "user-read-recently-played"@,
    ]
}

/// The scope parameter of the authorization request.
pub fn scope_parameter() -> (s: String)
    ensures
        s@ == crate::ai::prompts::join(scopes(), " "@),
{
    let mut v: Vec<String> = Vec::new();
    v.push(owned("playlist-read-private"));
    v.push(owned("playlist-read-collaborative"));
    v.push(owned("playlist-modify-public"));
    v.push(owned("playlist-modify-private"));
    v.push(owned("user-library-read"));
    v.push(owned("user-top-read"));
    v.push(owned("user-read-recently-played"));
    proof {
        assert(crate::ai::prompts::views(v@) =~= scopes());
    }
    crate::ai::prompts::join_strings(&v, " ")
}

#[derive(Clone, Debug)]
pub enum AuthError {
    NotAuthenticated,
    PortInUse(u16),
    Timeout,
    Denied(String),
    StateMismatch,
    Token(String),
    /// A transport failure (the underlying error's text).
    Network(String),
    /// A local I/O failure (the underlying error's text).
    Io(String),
}

#[derive(Clone, Debug)]
pub struct StoredTokens {
    /// The client id these tokens were issued to; a mismatch invalidates.
    pub client_id: String,
    pub access_token: String,
    pub refresh_token: String,
    /// Unix seconds after which `access_token` is considered stale.
    pub expires_at: i64,
    pub scope: String,
}

// ---------------------------------------------------------------------
// PKCE
// ---------------------------------------------------------------------
/// SHA-256 of a byte string (FIPS 180-4).
pub uninterp spec fn sha256_spec(data: Seq<u8>) -> Seq<u8>;

/// The character for a 6-bit value in the URL-safe base64 alphabet
/// (RFC 4648 §5): `A-Z`, `a-z`, `0-9`, `-`, `_`.
pub open spec fn b64url_char(x: int) -> char {
    if x < 26 {
        (65 + x) as char
    } else if x < 52 {
        (97 + x - 26) as char
    } else if x < 62 {
        (48 + x - 52) as char
    } else if x == 62 {
        '-'
    } else {
        '_'
    }
}

/// Unpadded URL-safe base64 (RFC 4648 §5, no `=` padding): every 3 bytes
/// become 4 characters of 6 bits each, most significant first; a trailing
/// 1 or 2 bytes become 2 or 3 characters, the last padded with zero bits.
pub open spec fn base64url_nopad_spec(data: Seq<u8>) -> Seq<char>
    decreases data.len(),
{
    if data.len() == 0 {
        Seq::empty()
    } else if data.len() == 1 {
        seq![b64url_char((data[0] as int) / 4), b64url_char(((data[0] as int) % 4) * 16)]
    } else if data.len() == 2 {
        seq![
            b64url_char((data[0] as int) / 4),
            b64url_char(((data[0] as int) % 4) * 16 + (data[1] as int) / 16),
            b64url_char(((data[1] as int) % 16) * 4),
        ]
    } else {
        seq![
            b64url_char((data[0] as int) / 4),
            b64url_char(((data[0] as int) % 4) * 16 + (data[1] as int) / 16),
            b64url_char(((data[1] as int) % 16) * 4 + (data[2] as int) / 64),
            b64url_char((data[2] as int) % 64),
        ] + base64url_nopad_spec(data.skip(3))
    }
}

proof fn lemma_b64url_char(x: int)
    requires
        0 <= x < 64,
    ensures
        is_urlsafe_char(b64url_char(x)),
{
}

/// Unpadded URL-safe base64 has `ceil(4n/3)` characters, all from the
/// URL-safe alphabet.
proof fn lemma_base64url_shape(data: Seq<u8>)
    ensures
        base64url_nopad_spec(data).len() == (4 * data.len() + 2) / 3,
        forall|i: int|
            0 <= i < base64url_nopad_spec(data).len() ==> is_urlsafe_char(
                #[trigger] base64url_nopad_spec(data)[i],
            ),
    decreases data.len(),
{
    let s = base64url_nopad_spec(data);
    if data.len() >= 1 {
        lemma_b64url_char((data[0] as int) / 4);
        if data.len() == 1 {
            lemma_b64url_char(((data[0] as int) % 4) * 16);
        } else {
            lemma_b64url_char(((data[0] as int) % 4) * 16 + (data[1] as int) / 16);
            if data.len() == 2 {
                lemma_b64url_char(((data[1] as int) % 16) * 4);
            } else {
                lemma_b64url_char(((data[1] as int) % 16) * 4 + (data[2] as int) / 64);
                lemma_b64url_char((data[2] as int) % 64);
                lemma_base64url_shape(data.skip(3));
                let head = seq![
                    b64url_char((data[0] as int) / 4),
                    b64url_char(((data[0] as int) % 4) * 16 + (data[1] as int) / 16),
                    b64url_char(((data[1] as int) % 16) * 4 + (data[2] as int) / 64),
                    b64url_char((data[2] as int) % 64),
                ];
                let tail = base64url_nopad_spec(data.skip(3));
                assert(s == head + tail);
                assert forall|i: int| 0 <= i < s.len() implies is_urlsafe_char(#[trigger] s[i]) by {
                    if i < 4 {
                        assert(s[i] == head[i]);
                    } else {
                        assert(s[i] == tail[i - 4]);
                    }
                }
            }
        }
    }
}

/// The URL-safe base64 alphabet.
pub open spec fn is_urlsafe_char(c: char) -> bool {
    ('A' <= c && c <= 'Z') || ('a' <= c && c <= 'z') || ('0' <= c && c <= '9') || c == '-' || c
        == '_'
}

/// `Sha256::digest`: the 32-byte SHA-256 digest of `data`.
#[verifier::external_body]
fn sha256(data: &[u8]) -> (d: Vec<u8>)
    ensures
        d@ == sha256_spec(data@),
        d@.len() == 32,
{
    Sha256::digest(data).to_vec()
}

/// `URL_SAFE_NO_PAD.encode`: unpadded URL-safe base64 of `data`.
#[verifier::external_body]
fn base64url_nopad_raw(data: &[u8]) -> (s: String)
    ensures
        s@ == base64url_nopad_spec(data@),
{
    URL_SAFE_NO_PAD.encode(data)
}

/// Unpadded URL-safe base64 of `data`: `ceil(4n/3)` characters from the
/// URL-safe alphabet.
fn base64url_nopad(data: &[u8]) -> (s: String)
    ensures
        s@ == base64url_nopad_spec(data@),
        s@.len() == (4 * data@.len() + 2) / 3,
        forall|i: int| 0 <= i < s@.len() ==> is_urlsafe_char(#[trigger] s@[i]),
{
    let s = base64url_nopad_raw(data);
    proof {
        lemma_base64url_shape(data@);
    }
    s
}

/// `OsRng::try_fill_bytes`: `n` bytes of OS entropy, or `None` if the OS
/// generator failed. The bytes are random: only their number is stated.
#[verifier::external_body]
fn os_random_bytes(n: usize) -> (r: Option<Vec<u8>>)
    ensures
        match r {
            Some(b) => b@.len() == n,
            None => true,
        },
{
    let mut buf = vec![0u8; n];
    match OsRng.try_fill_bytes(&mut buf) {
        Ok(()) => Some(buf),
        Err(_) => None,
    }
}

/// `n_bytes` of OS entropy as unpadded URL-safe base64 (used for the PKCE
/// verifier and the OAuth `state`), or `None` if the OS generator failed.
pub fn random_urlsafe(n_bytes: usize) -> (r: Option<String>)
    ensures
        match r {
            Some(s) => s@.len() == (4 * n_bytes + 2) / 3 && forall|i: int|
                0 <= i < s@.len() ==> is_urlsafe_char(#[trigger] s@[i]),
            None => true,
        },
{
    match os_random_bytes(n_bytes) {
        Some(buf) => Some(base64url_nopad(buf.as_slice())),
        None => None,
    }
}

/// The PKCE verifier is drawn from 64 random bytes: 86 characters, within
/// RFC 7636's 43..=128 bounds.
pub proof fn law_verifier_length_within_rfc_bounds()
    ensures
        43 <= (4 * 64 + 2) / 3 <= 128,
{
}

/// RFC 7636 S256: BASE64URL(SHA256(verifier)).
pub fn code_challenge_s256(verifier: &str) -> (c: String)
    ensures
        c@ == base64url_nopad_spec(sha256_spec(verifier.spec_bytes())),
        c@.len() == 43,
{
    let digest = sha256(verifier.as_bytes());
    base64url_nopad(digest.as_slice())
}

// ---------------------------------------------------------------------
// Expiry
// ---------------------------------------------------------------------
/// `now + expires_in - 30`, clamped to the `i64` range: a 30 s safety margin
/// so a token is never presented mid-expiry.
pub open spec fn expiry_spec(now: i64, expires_in: i64) -> i64 {
    let e = now + expires_in - 30;
    if e > i64::MAX {
        i64::MAX
    } else if e < i64::MIN {
        i64::MIN
    } else {
        e as i64
    }
}

pub fn expires_at_after(now: i64, expires_in: i64) -> (e: i64)
    ensures
        e == expiry_spec(now, expires_in),
{
    let wide: i128 = now as i128 + expires_in as i128 - 30;
    if wide > i64::MAX as i128 {
        i64::MAX
    } else if wide < i64::MIN as i128 {
        i64::MIN
    } else {
        wide as i64
    }
}

/// `SystemTime::now().duration_since(UNIX_EPOCH)`: whole seconds since the
/// Unix epoch, or `None` when the clock reads before 1970. The value depends
/// on the clock; nothing is claimed about it.
#[verifier::external_body]
fn clock_seconds() -> Option<u64> {
    match std::time::SystemTime::now().duration_since(std::time::UNIX_EPOCH) {
        Ok(d) => Some(d.as_secs()),
        Err(_) => None,
    }
}

/// The current Unix time in seconds, or `None` when the clock cannot be
/// read as a non-negative `i64` (a clock set before 1970).
pub fn unix_now() -> (r: Option<i64>)
    ensures
        r matches Some(t) ==> t >= 0,
{
    match clock_seconds() {
        Some(secs) => {
            if secs <= i64::MAX as u64 {
                Some(secs as i64)
            } else {
                None
            }
        },
        None => None,
    }
}

/// The expiry instant for a token valid for `expires_in` seconds from now,
/// or `None` when the clock cannot be read.
pub fn expires_at_from(expires_in: i64) -> (e: Option<i64>)
    ensures
        e matches Some(x) ==> exists|now: i64| now >= 0 && x == expiry_spec(now, expires_in),
{
    match unix_now() {
        Some(now) => {
            let e = expires_at_after(now, expires_in);
            assert(e == expiry_spec(now, expires_in));
            Some(e)
        },
        None => None,
    }
}

/// An access token is refreshed once the clock reaches its expiry.
pub open spec fn is_stale(tokens: StoredTokens, now: i64) -> bool {
    tokens.expires_at <= now
}

// ---------------------------------------------------------------------
// Token responses
// ---------------------------------------------------------------------
/// The rotation rule: a response's refresh token replaces the stored one;
/// a response without one keeps the previous token.
pub fn tokens_from_response(
    client_id: &str,
    previous_refresh: Option<&str>,
    access_token: String,
    refresh_token: Option<String>,
    expires_at: i64,
    scope: Option<String>,
) -> (r: Result<StoredTokens, AuthError>)
    ensures
        match r {
            Ok(t) => {
                &&& t.client_id@ == client_id@
                &&& t.access_token == access_token
                &&& t.refresh_token@ == match refresh_token {
                    Some(rt) => rt@,
                    None => previous_refresh.unwrap()@,
                }
                &&& t.expires_at == expires_at
                &&& t.scope@ == match scope {
                    Some(s) => s@,
                    None => Seq::empty(),
                }
            },
            Err(AuthError::Token(m)) => refresh_token is None && previous_refresh is None && m@
                == "no refresh token in response"@,
            Err(_) => false,
        },
        (r is Ok) == (refresh_token is Some || previous_refresh is Some),
{
    let refresh = match refresh_token {
        Some(rt) => rt,
        None => match previous_refresh {
            Some(p) => owned(p),
            None => {
                return Err(AuthError::Token(owned("no refresh token in response")));
            },
        },
    };
    let scope = match scope {
        Some(s) => s,
        None => String::new(),
    };
    Ok(
        StoredTokens {
            client_id: owned(client_id),
            access_token,
            refresh_token: refresh,
            expires_at,
            scope,
        },
    )
}

/// A refresh failure naming `invalid_grant` means the refresh token was
/// revoked or expired: the stored tokens are dropped and the user must
/// reconnect.
pub fn is_revoked_grant(message: &str) -> (b: bool)
    ensures
        b == contains_seq(message@, "invalid_grant"@),
{
    contains_exec(&chars_of(message), &chars_of("invalid_grant"))
}

// ---------------------------------------------------------------------
// Token state
// ---------------------------------------------------------------------
/// Stored tokens are usable only if they belong to `client_id` and carry a
/// refresh token.
pub open spec fn accepts_stored(t: StoredTokens, client_id: Seq<char>) -> bool {
    t.client_id@ == client_id && t.refresh_token@.len() > 0
}

/// Owns the token state for one client id. Lives inside the single worker.
pub struct TokenManager {
    client_id: String,
    path: std::path::PathBuf,
    tokens: Option<StoredTokens>,
}

impl TokenManager {
    /// A manager for `client_id` persisting to `path`, holding `loaded`
    /// (what the token file decoded to, if anything) only if those tokens
    /// belong to `client_id` and carry a refresh token.
    pub fn from_loaded(path: std::path::PathBuf, client_id: &str, loaded: Option<StoredTokens>) -> (m:
        TokenManager)
        ensures
            m.client_id()@ == client_id@,
            m.stored_path() == path,
            m.tokens() == match loaded {
                Some(t) => if accepts_stored(t, client_id@) {
                    Some(t)
                } else {
                    None
                },
                None => None,
            },
    {
        let tokens = match loaded {
            Some(t) => {
                if crate::text::str_eq(t.client_id.as_str(), client_id) && !t.refresh_token.as_str().is_empty() {
                    Some(t)
                } else {
                    None
                }
            },
            None => None,
        };
        TokenManager { client_id: owned(client_id), path, tokens }
    }

    pub closed spec fn client_id(&self) -> String {
        self.client_id
    }

    pub closed spec fn tokens(&self) -> Option<StoredTokens> {
        self.tokens
    }

    /// The file the tokens persist to.
    pub closed spec fn stored_path(&self) -> std::path::PathBuf {
        self.path
    }

    pub fn client_id_str(&self) -> (s: &str)
        ensures
            s@ == self.client_id()@,
    {
        self.client_id.as_str()
    }

    /// Where the tokens persist.
    pub fn path(&self) -> (p: &std::path::PathBuf)
        ensures
            *p == self.stored_path(),
    {
        &self.path
    }

    pub fn current(&self) -> (t: Option<&StoredTokens>)
        ensures
            match t {
                Some(x) => self.tokens() == Some(*x),
                None => self.tokens() is None,
            },
    {
        match &self.tokens {
            Some(t) => Some(t),
            None => None,
        }
    }

    pub fn is_authenticated(&self) -> (b: bool)
        ensures
            b == self.tokens() is Some,
    {
        self.tokens.is_some()
    }

    /// Replace the held tokens (the application then persists them).
    pub fn set(&mut self, tokens: StoredTokens)
        ensures
            final(self).tokens() == Some(tokens),
            final(self).client_id() == old(self).client_id(),
            final(self).stored_path() == old(self).stored_path(),
    {
        self.tokens = Some(tokens);
    }

    /// Forget the held tokens (the application then deletes the file).
    pub fn clear(&mut self)
        ensures
            final(self).tokens() is None,
            final(self).client_id() == old(self).client_id(),
            final(self).stored_path() == old(self).stored_path(),
    {
        self.tokens = None;
    }

    /// Does the held access token need a refresh at time `now`?
    /// `Err(NotAuthenticated)` without tokens.
    pub fn needs_refresh(&self, now: i64) -> (r: Result<bool, AuthError>)
        ensures
            match self.tokens() {
                Some(t) => r matches Ok(b) && b == is_stale(t, now),
                None => r matches Err(AuthError::NotAuthenticated),
            },
    {
        match &self.tokens {
            None => Err(AuthError::NotAuthenticated),
            Some(t) => Ok(t.expires_at <= now),
        }
    }
}

/// Tokens issued to another client id are never picked up, and a rotated
/// refresh token always replaces the stored one.
pub proof fn law_tokens_bound_to_client(t: StoredTokens, client_id: Seq<char>)
    ensures
        t.client_id@ != client_id ==> !accepts_stored(t, client_id),
{
}

// ---------------------------------------------------------------------
// Loopback callback
// ---------------------------------------------------------------------
/// What to do with one request that reached the loopback listener.
#[derive(Clone, Debug)]
pub enum CallbackOutcome {
    /// Nothing was read: keep listening without answering.
    Empty,
    /// Not the callback (favicon etc.): answer 404 and keep listening.
    NotCallback,
    /// The `state` did not match: answer 400 and abort (possible CSRF).
    StateMismatch,
    /// The user denied access: answer 200 and abort with this reason.
    Denied(String),
    /// Authorization code received: answer 200 and exchange it.
    Code(String),
    /// The callback carried no code: answer 400 and keep listening.
    MissingCode,
}

/// Decide on one request to the loopback listener, given its method, its
/// path, and the `code` / `state` / `error` query parameters it carried.
pub fn callback_outcome(
    method: &str,
    path: &str,
    code: Option<String>,
    state: Option<String>,
    error: Option<String>,
    expected_state: &str,
) -> (r: CallbackOutcome)
    ensures
        !(method@ == "GET"@ && crate::text::matches_at(path@, 0, "/callback"@)) ==> r
            is NotCallback,
        method@ == "GET"@ && crate::text::matches_at(path@, 0, "/callback"@) ==> match state {
            Some(s) if s@ == expected_state@ => match error {
                Some(e) => r matches CallbackOutcome::Denied(d) && d == e,
                None => match code {
                    Some(c) => r matches CallbackOutcome::Code(x) && x == c,
                    None => r is MissingCode,
                },
            },
            _ => r is StateMismatch,
        },
{
    let is_get = crate::text::str_eq(method, "GET");
    let p = chars_of(path);
    let prefix = chars_of("/callback");
    if !is_get || !crate::text::matches_at_exec(&p, 0, &prefix) {
        return CallbackOutcome::NotCallback;
    }
    let state_ok = match &state {
        Some(s) => crate::text::str_eq(s.as_str(), expected_state),
        None => false,
    };
    if !state_ok {
        return CallbackOutcome::StateMismatch;
    }
    if let Some(e) = error {
        return CallbackOutcome::Denied(e);
    }
    match code {
        Some(c) => CallbackOutcome::Code(c),
        None => CallbackOutcome::MissingCode,
    }
}

/// The text of a refused token request whose body is an OAuth error:
/// the error code with its description in parentheses.
pub fn token_error_message(error: &str, description: Option<&str>) -> (m: String)
    ensures
        m@ == error@ + " ("@ + match description {
            Some(d) => d@,
            None => Seq::empty(),
        } + ")"@,
{
    let mut m = owned(error);
    push_str(&mut m, " (");
    match description {
        Some(d) => push_str(&mut m, d),
        None => {
            assert(m@ + Seq::<char>::empty() =~= m@);
        },
    }
    push_str(&mut m, ")");
    m
}

/// The text of a refused token request whose body is not an OAuth error:
/// the HTTP status and the first 300 characters of the body.
pub fn token_http_error(status: &str, body: &str) -> (m: String)
    ensures
        m@ == "HTTP "@ + status@ + ": "@ + body@.take(if body@.len() < 300 { body@.len() as int } else { 300 }),
{
    let mut m = owned("HTTP ");
    push_str(&mut m, status);
    push_str(&mut m, ": ");
    let t = crate::spotify::client::truncate_chars(body, 300);
    push_str(&mut m, t.as_str());
    m
}

/// The redirect URI for the loopback port (always the IP literal, never
/// `localhost`).
pub fn redirect_uri_for(port: u16) -> (s: String)
    ensures
        s@ == "http://127.0.0.1:"@ + crate::text::decimal(port as nat) + "/callback"@,
{
    let mut s = owned("http://127.0.0.1:");
    crate::text::push_decimal(&mut s, port as u64);
    push_str(&mut s, "/callback");
    s
}

} // verus!
