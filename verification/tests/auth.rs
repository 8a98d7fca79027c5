use playlist_studio::spotify::callback::{authorize_url, callback_request};
use playlist_studio::spotify::auth::{
    callback_outcome, code_challenge_s256, expires_at_after, expires_at_from, unix_now, token_error_message, token_http_error, is_revoked_grant, random_urlsafe,
    redirect_uri_for, scope_parameter, tokens_from_response, AuthError, CallbackOutcome,
    StoredTokens, TokenManager,
};

fn tokens(client: &str, refresh: &str, expires_at: i64) -> StoredTokens {
    StoredTokens {
        client_id: client.into(),
        access_token: "at".into(),
        refresh_token: refresh.into(),
        expires_at,
        scope: String::new(),
    }
}

#[test]
fn pkce_challenge_matches_rfc7636_vector() {
    assert_eq!(
        code_challenge_s256("dBjftJeZ4CVP-mB92K27uhbUJU1p1r_wW1gFWFOEjXk"),
        "E9Melhoa2OwvFrEMTJguCHaoeK1t8URWbuGJSstw-cM"
    );
}

#[test]
fn verifier_length_is_within_rfc_bounds() {
    let v = random_urlsafe(64).unwrap();
    assert!((43..=128).contains(&v.len()), "got {}", v.len());
    assert!(v
        .chars()
        .all(|c| c.is_ascii_alphanumeric() || c == '-' || c == '_'));
}

#[test]
fn token_manager_ignores_tokens_from_a_different_client_id() {
    let stored = tokens("client-A", "rt", 3600);
    let path = std::path::PathBuf::from("tokens.json");
    assert!(TokenManager::from_loaded(path.clone(), "client-A", Some(stored.clone())).is_authenticated());
    assert!(!TokenManager::from_loaded(path, "client-B", Some(stored)).is_authenticated());
}

#[test]
fn tokens_without_refresh_token_are_not_picked_up() {
    let path = std::path::PathBuf::from("tokens.json");
    let m = TokenManager::from_loaded(path, "c", Some(tokens("c", "", 0)));
    assert!(!m.is_authenticated());
}

#[test]
fn set_and_clear_tokens() {
    let mut m = TokenManager::from_loaded(std::path::PathBuf::from("t.json"), "c", None);
    assert!(matches!(m.needs_refresh(0), Err(AuthError::NotAuthenticated)));
    m.set(tokens("c", "rt", 100));
    assert!(m.is_authenticated());
    assert_eq!(m.needs_refresh(99).unwrap(), false);
    assert_eq!(m.needs_refresh(100).unwrap(), true);
    m.clear();
    assert!(!m.is_authenticated());
    assert_eq!(m.client_id_str(), "c");
}

#[test]
fn refresh_rotation_keeps_or_replaces_the_refresh_token() {
    let t = tokens_from_response("c", Some("old"), "at".into(), None, 10, None).unwrap();
    assert_eq!(t.refresh_token, "old");
    let t = tokens_from_response("c", Some("old"), "at".into(), Some("new".into()), 10, None).unwrap();
    assert_eq!(t.refresh_token, "new");
    assert!(matches!(
        tokens_from_response("c", None, "at".into(), None, 10, None),
        Err(AuthError::Token(_))
    ));
}

#[test]
fn expiry_keeps_a_safety_margin() {
    assert_eq!(expires_at_after(1000, 3600), 4570);
    assert_eq!(expires_at_after(i64::MAX, 3600), i64::MAX);
}

#[test]
fn revoked_grants_are_recognised() {
    assert!(is_revoked_grant("{\"error\":\"invalid_grant\"}"));
    assert!(!is_revoked_grant("server error"));
}

#[test]
fn callback_decisions() {
    let d = |m: &str, p: &str, code: Option<&str>, state: Option<&str>, err: Option<&str>| {
        callback_outcome(
            m,
            p,
            code.map(String::from),
            state.map(String::from),
            err.map(String::from),
            "s1",
        )
    };
    assert!(matches!(d("GET", "/favicon.ico", None, None, None), CallbackOutcome::NotCallback));
    assert!(matches!(d("POST", "/callback", None, None, None), CallbackOutcome::NotCallback));
    assert!(matches!(d("GET", "/callback?x", Some("c"), Some("bad"), None), CallbackOutcome::StateMismatch));
    assert!(matches!(d("GET", "/callback", Some("c"), Some("s1"), Some("access_denied")), CallbackOutcome::Denied(ref e) if e == "access_denied"));
    assert!(matches!(d("GET", "/callback", Some("c"), Some("s1"), None), CallbackOutcome::Code(ref c) if c == "c"));
    assert!(matches!(d("GET", "/callback", None, Some("s1"), None), CallbackOutcome::MissingCode));
}

#[test]
fn scopes_and_redirect() {
    assert_eq!(
        scope_parameter(),
        "playlist-read-private playlist-read-collaborative playlist-modify-public playlist-modify-private user-library-read user-top-read user-read-recently-played"
    );
    assert_eq!(redirect_uri_for(8888), "http://127.0.0.1:8888/callback");
}

#[test]
fn callback_requests_are_read_from_the_request_line() {
    let ok = callback_request("GET /callback?code=abc&state=s1 HTTP/1.1\r\nHost: x\r\n\r\n", "s1").unwrap();
    assert!(matches!(ok, CallbackOutcome::Code(c) if c == "abc"));
    let last = callback_request("GET /callback?state=zz&code=a%20b&state=s1 HTTP/1.1\r\n\r\n", "s1").unwrap();
    assert!(matches!(last, CallbackOutcome::Code(c) if c == "a b"));
    let bad = callback_request("GET /callback?code=abc&state=other HTTP/1.1\r\n\r\n", "s1").unwrap();
    assert!(matches!(bad, CallbackOutcome::StateMismatch));
    let denied = callback_request("GET /callback?error=access_denied&state=s1 HTTP/1.1\r\n\r\n", "s1").unwrap();
    assert!(matches!(denied, CallbackOutcome::Denied(e) if e == "access_denied"));
    let missing = callback_request("GET /callback?state=s1 HTTP/1.1\r\n\r\n", "s1").unwrap();
    assert!(matches!(missing, CallbackOutcome::MissingCode));
    let other = callback_request("GET /favicon.ico HTTP/1.1\r\n\r\n", "s1").unwrap();
    assert!(matches!(other, CallbackOutcome::NotCallback));
    let post = callback_request("POST /callback?code=abc&state=s1 HTTP/1.1\r\n\r\n", "s1").unwrap();
    assert!(matches!(post, CallbackOutcome::NotCallback));
    assert!(matches!(callback_request("", "s1").unwrap(), CallbackOutcome::Empty));
}

#[test]
fn expiry_reads_the_clock() {
    let now = unix_now().unwrap();
    let e = expires_at_from(3600).unwrap();
    assert!(e >= now + 3600 - 30 && e <= now + 3600 - 30 + 5);
}

#[test]
fn token_error_texts() {
    assert_eq!(token_error_message("invalid_grant", Some("Refresh token revoked")), "invalid_grant (Refresh token revoked)");
    assert_eq!(token_error_message("invalid_client", None), "invalid_client ()");
    let long = "x".repeat(400);
    let m = token_http_error("500 Internal Server Error", &long);
    assert_eq!(m, format!("HTTP 500 Internal Server Error: {}", "x".repeat(300)));
}

#[test]
fn authorize_url_carries_the_pkce_query() {
    let u = authorize_url("cid", "http://127.0.0.1:8888/callback", "st", "ch").unwrap();
    assert!(u.starts_with("https://accounts.spotify.com/authorize?client_id=cid&response_type=code&redirect_uri=http%3A%2F%2F127.0.0.1%3A8888%2Fcallback&state=st&scope="));
    assert!(u.ends_with("&code_challenge_method=S256&code_challenge=ch"));
    assert!(u.contains("playlist-read-private"));
}
