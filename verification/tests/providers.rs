use playlist_studio::ai::cli::{
    envelope_answer, envelope_error, exit_failure, health_outcome, CliProvider, ResultEnvelope,
};
use playlist_studio::ai::messages_api::{
    answer, check_api_config, describe_text, health_text, missing_key, request_error, retry_wait,
    ContentBlock,
};
use playlist_studio::ai::AiError;
use playlist_studio::config::AiConfig;

fn envelope(result: Option<&str>, subtype: Option<&str>, status: Option<u32>, is_error: bool) -> ResultEnvelope {
    ResultEnvelope {
        subtype: subtype.map(String::from),
        is_error,
        result: result.map(String::from),
        api_error_status: status,
    }
}

#[test]
fn cli_arguments() {
    let mut cfg = AiConfig::default();
    cfg.cli_timeout_secs = 5;
    let p = CliProvider::new("assistant".into(), "/tmp".into(), &cfg);
    assert_eq!(p.timeout_secs, 30);
    assert_eq!(
        p.cli_args(""),
        vec!["-p", "--output-format", "json", "--tools", "", "--strict-mcp-config", "--setting-sources", "user", "--no-session-persistence"]
    );
    cfg.cli_model = "opus".into();
    let p = CliProvider::new("assistant".into(), "/tmp".into(), &cfg);
    let args = p.cli_args("SYS");
    assert_eq!(&args[9..], &["--model", "opus", "--append-system-prompt", "SYS"]);
    assert_eq!(p.describe_text("/bin/assistant"), "Assistant CLI (subscription) — /bin/assistant · opus");
}

#[test]
fn envelope_errors() {
    assert_eq!(envelope_error(&envelope(Some("  "), Some("error_max_turns"), None, true)), "error_max_turns");
    assert_eq!(
        envelope_error(&envelope(Some("limit"), None, Some(429), true)),
        "limit (API status 429) — this usually means the subscription usage limit was reached; it resets on a rolling window"
    );
    assert_eq!(envelope_error(&envelope(None, None, Some(500), true)), "unknown CLI error (API status 500)");
    assert_eq!(envelope_answer(&envelope(Some("ok"), None, None, false)).unwrap(), "ok");
    assert!(matches!(envelope_answer(&envelope(None, None, None, false)), Err(AiError::Parse(_))));
    assert!(matches!(envelope_answer(&envelope(Some("x"), None, None, true)), Err(AiError::Provider(_))));
}

#[test]
fn cli_failures_and_health() {
    match exit_failure("exit status: 1", "  \n", "out") {
        AiError::Provider(m) => assert_eq!(m, "the CLI exited with exit status: 1: out"),
        _ => panic!(),
    }
    let long_err = format!("{}END", "e".repeat(500));
    match exit_failure("1", &long_err, "") {
        AiError::Provider(m) => {
            assert!(m.ends_with("END"));
            assert_eq!(m.chars().count(), "the CLI exited with 1: ".len() + 400);
        }
        _ => panic!(),
    }
    assert_eq!(
        health_outcome("2.1", true, true, Some("oauth".into()), Some("max".into())).unwrap(),
        "Assistant CLI 2.1 — logged in via oauth (max plan)"
    );
    assert!(matches!(health_outcome("2.1", true, false, None, None), Err(AiError::Provider(_))));
}

#[test]
fn api_settings_and_retries() {
    let mut cfg = AiConfig::default();
    assert!(matches!(check_api_config(&cfg), Err(AiError::Config(_))));
    cfg.api_url = "https://api.example.com/v1/messages".into();
    cfg.api_model = "m".into();
    cfg.api_key_env = "KEY".into();
    assert!(check_api_config(&cfg).is_ok());
    assert_eq!(describe_text("m", "KEY"), "Messages API (pay per token) — m · key from $KEY");
    assert_eq!(health_text("m", "KEY", 40), "Messages API configured: model m, key present in $KEY (40 chars)");
    assert!(matches!(missing_key("KEY"), AiError::Config(ref m) if m.contains("$KEY")));
    assert_eq!(retry_wait(429, 1, None), Some((2, 2)));
    assert_eq!(retry_wait(503, 2, Some(90)), Some((90, 60)));
    assert_eq!(retry_wait(503, 3, None), None);
    assert_eq!(retry_wait(400, 1, None), None);
}

#[test]
fn api_answers() {
    let blocks = vec![
        ContentBlock { block_type: "text".into(), text: "a".into() },
        ContentBlock { block_type: "thinking".into(), text: "zzz".into() },
        ContentBlock { block_type: "text".into(), text: "b".into() },
    ];
    assert_eq!(answer(None, &blocks).unwrap(), "a\nb");
    assert!(matches!(answer(Some("refusal".into()), &blocks), Err(AiError::Provider(_))));
    assert!(matches!(answer(Some("max_tokens".into()), &blocks), Err(AiError::Provider(_))));
    assert!(matches!(answer(Some("end_turn".into()), &vec![]), Err(AiError::Parse(_))));
    match request_error("429 Too Many Requests", "body", Some(("rate_limit_error".into(), "slow down".into()))) {
        AiError::Provider(m) => assert_eq!(m, "rate_limit_error: slow down"),
        _ => panic!(),
    }
    match request_error("500", "oops", None) {
        AiError::Provider(m) => assert_eq!(m, "HTTP 500: oops"),
        _ => panic!(),
    }
}
