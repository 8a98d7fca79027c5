//! App configuration, persisted as TOML in the platform config directory
//! (e.g. `~/.config/spotify-shuffle/` on Linux).
//!
//! Secrets policy: the Spotify *client id* is not a secret (PKCE apps have no
//! client secret at all). OAuth tokens are stored separately in
//! `tokens.json` with 0600 permissions. The Messages API key, if the user
//! switches providers, is read from an environment variable and never written
//! to disk by this app.
//!
//! Reading and writing the files is the application's part; this module
//! holds the settings, their defaults and where the files live.

use vstd::prelude::*;

use crate::spotify::auth::redirect_uri_for;
use crate::ai::prompts::views;
use crate::text::{decimal, owned};

verus! {

/// The directory under the platform config directory that holds the app's files.
pub const APP_DIR_NAME: &'static str = "spotify-shuffle";

/// Data directory used before the app was renamed.
pub const LEGACY_DIR_NAME: &'static str = "playlist-studio";

/// The settings file inside the app directory.
pub const CONFIG_FILE_NAME: &'static str = "config.toml";

/// The token file inside the app directory.
pub const TOKENS_FILE_NAME: &'static str = "tokens.json";

/// The empty working directory for headless CLI runs, inside the app
/// directory, so the CLI never picks up instruction files or settings from
/// whatever project the app happened to be launched from.
pub const CLI_WORKDIR_NAME: &'static str = "cli-workdir";

#[derive(Clone, Debug)]
pub struct AppConfig {
    pub spotify: SpotifyConfig,
    pub ai: AiConfig,
}

#[derive(Clone, Debug)]
pub struct SpotifyConfig {
    /// Client ID of the user's own Spotify app (developer.spotify.com
    /// dashboard). Not a secret.
    pub client_id: String,
    /// Loopback port for the OAuth redirect. The registered redirect URI must
    /// be exactly `http://127.0.0.1:<port>/callback`.
    pub redirect_port: u16,
    /// Whether playlists created by this app default to public.
    pub create_public: bool,
}

impl Default for SpotifyConfig {
    fn default() -> (c: Self)
        ensures
            c.client_id@.len() == 0,
            c.redirect_port == 8888,
            !c.create_public,
    {
        SpotifyConfig { client_id: String::new(), redirect_port: 8888, create_public: false }
    }
}

#[derive(Clone, Copy, Debug, PartialEq, Eq, Structural)]
pub enum AiProviderKind {
    /// Drive the locally installed, already-authenticated assistant CLI in
    /// headless mode — usage counts against the user's subscription.
    SubscriptionCli,
    /// Call the hosted Messages API directly (pay-per-token). Requires an
    /// API key in the environment.
    MessagesApi,
}

impl AiProviderKind {
    pub fn label(self) -> (s: &'static str)
        ensures
            s@ == match self {
                AiProviderKind::SubscriptionCli => "Assistant CLI (subscription)"@,
                AiProviderKind::MessagesApi => "Messages API (pay per token)"@,
            },
    {
        match self {
            AiProviderKind::SubscriptionCli => "Assistant CLI (subscription)",
            AiProviderKind::MessagesApi => "Messages API (pay per token)",
        }
    }
}

#[derive(Clone, Debug)]
pub struct AiConfig {
    pub provider: AiProviderKind,
    /// Model for the CLI (`--model`): an alias or a full model id. Empty =
    /// whatever default model the user's own CLI is configured with.
    pub cli_model: String,
    /// Absolute path to the CLI binary.
    pub cli_binary: String,
    /// Hard timeout for one CLI generation call.
    pub cli_timeout_secs: u64,
    /// Environment variables removed from the CLI's environment (those that
    /// would switch it away from subscription billing).
    pub cli_env_remove: Vec<String>,
    /// Endpoint of the Messages API.
    pub api_url: String,
    /// Model id for the Messages API provider.
    pub api_model: String,
    /// Name of the environment variable holding the API key.
    pub api_key_env: String,
    /// Name of the header that carries the API version (none when empty).
    pub api_version_header: String,
}

impl Default for AiConfig {
    fn default() -> (c: Self)
        ensures
            c.provider == AiProviderKind::SubscriptionCli,
            c.cli_model@.len() == 0,
            c.cli_binary@.len() == 0,
            c.cli_timeout_secs == 600,
            c.cli_env_remove@.len() == 0,
            c.api_url@.len() == 0,
            c.api_model@.len() == 0,
            c.api_key_env@.len() == 0,
            c.api_version_header@.len() == 0,
    {
        AiConfig {
            provider: AiProviderKind::SubscriptionCli,
            cli_model: String::new(),
            cli_binary: String::new(),
            cli_timeout_secs: 600,
            cli_env_remove: Vec::new(),
            api_url: String::new(),
            api_model: String::new(),
            api_key_env: String::new(),
            api_version_header: String::new(),
        }
    }
}

impl Default for AppConfig {
    fn default() -> (c: Self)
        ensures
            c.spotify.client_id@.len() == 0,
            c.spotify.redirect_port == 8888,
            !c.spotify.create_public,
            c.ai.provider == AiProviderKind::SubscriptionCli,
            c.ai.cli_timeout_secs == 600,
    {
        AppConfig { spotify: SpotifyConfig::default(), ai: AiConfig::default() }
    }
}

impl AppConfig {
    /// The OAuth redirect URI: always the loopback IP literal, never
    /// `localhost`.
    pub fn redirect_uri(&self) -> (s: String)
        ensures
            s@ == "http://127.0.0.1:"@ + decimal(self.spotify.redirect_port as nat) + "/callback"@,
    {
        redirect_uri_for(self.spotify.redirect_port)
    }
}

// ---------------------------------------------------------------------
// Where the files live
// ---------------------------------------------------------------------
/// `dirs::config_dir`: the platform's configuration directory, when the
/// environment names one. It depends on the environment; nothing is claimed
/// about it.
#[verifier::external_body]
fn platform_config_dir() -> Option<std::path::PathBuf> {
    dirs::config_dir()
}

/// A location under the app's base directory: the platform configuration
/// directory (`base`), or the current directory when there is none
/// (`base` is `None`), followed by the path components `parts`.
pub struct AppPath {
    pub base: Option<std::path::PathBuf>,
    pub parts: Vec<String>,
}

/// The app's directory and, when `file` is given, a file in it.
fn app_path(file: Option<&str>) -> (p: AppPath)
    ensures
        views(p.parts@) == match file {
            Some(f) => seq![APP_DIR_NAME@, f@],
            None => seq![APP_DIR_NAME@],
        },
{
    let mut parts: Vec<String> = Vec::new();
    parts.push(owned(APP_DIR_NAME));
    match file {
        Some(f) => {
            parts.push(owned(f));
            assert(views(parts@) =~= seq![APP_DIR_NAME@, f@]);
        },
        None => {
            assert(views(parts@) =~= seq![APP_DIR_NAME@]);
        },
    }
    AppPath { base: platform_config_dir(), parts }
}

/// The app's directory: [`APP_DIR_NAME`] inside the platform configuration
/// directory, or inside the current directory when there is none.
pub fn config_dir() -> (p: AppPath)
    ensures
        views(p.parts@) == seq![APP_DIR_NAME@],
{
    app_path(None)
}

/// The settings file: [`CONFIG_FILE_NAME`] in [`config_dir`].
pub fn config_path() -> (p: AppPath)
    ensures
        views(p.parts@) == seq![APP_DIR_NAME@, CONFIG_FILE_NAME@],
{
    app_path(Some(CONFIG_FILE_NAME))
}

/// The token file: [`TOKENS_FILE_NAME`] in [`config_dir`].
pub fn tokens_path() -> (p: AppPath)
    ensures
        views(p.parts@) == seq![APP_DIR_NAME@, TOKENS_FILE_NAME@],
{
    app_path(Some(TOKENS_FILE_NAME))
}

/// The scratch working directory for CLI runs: [`CLI_WORKDIR_NAME`] in
/// [`config_dir`].
pub fn cli_workdir() -> (p: AppPath)
    ensures
        views(p.parts@) == seq![APP_DIR_NAME@, CLI_WORKDIR_NAME@],
{
    app_path(Some(CLI_WORKDIR_NAME))
}

} // verus!
