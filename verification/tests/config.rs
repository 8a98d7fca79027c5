use playlist_studio::config::{
    cli_workdir, config_dir, config_path, tokens_path, AiProviderKind, AppConfig,
};

#[test]
fn redirect_uri_uses_loopback_ip_not_localhost() {
    let cfg = AppConfig::default();
    assert_eq!(cfg.redirect_uri(), "http://127.0.0.1:8888/callback");
}

#[test]
fn defaults_match_the_documented_values() {
    let cfg = AppConfig::default();
    assert_eq!(cfg.spotify.redirect_port, 8888);
    assert!(cfg.spotify.client_id.is_empty());
    assert!(!cfg.spotify.create_public);
    assert_eq!(cfg.ai.provider, AiProviderKind::SubscriptionCli);
    assert_eq!(cfg.ai.cli_timeout_secs, 600);
    assert!(cfg.ai.cli_model.is_empty());
    assert!(cfg.ai.api_url.is_empty());
}

#[test]
fn redirect_uri_follows_the_port() {
    let mut cfg = AppConfig::default();
    cfg.spotify.redirect_port = 43123;
    assert_eq!(cfg.redirect_uri(), "http://127.0.0.1:43123/callback");
}

#[test]
fn provider_labels() {
    assert_eq!(AiProviderKind::SubscriptionCli.label(), "Assistant CLI (subscription)");
    assert_eq!(AiProviderKind::MessagesApi.label(), "Messages API (pay per token)");
}

fn parts(p: &playlist_studio::config::AppPath) -> Vec<&str> {
    p.parts.iter().map(|s| s.as_str()).collect()
}

#[test]
fn files_live_in_the_app_directory() {
    let dir = config_dir();
    assert_eq!(parts(&dir), vec!["spotify-shuffle"]);
    assert_eq!(parts(&config_path()), vec!["spotify-shuffle", "config.toml"]);
    assert_eq!(parts(&tokens_path()), vec!["spotify-shuffle", "tokens.json"]);
    assert_eq!(parts(&cli_workdir()), vec!["spotify-shuffle", "cli-workdir"]);
    assert_eq!(config_path().base, dir.base);
}
