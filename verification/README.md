# Playlist Studio

An AI-assisted Spotify playlist manager with a strict two-tier playlist-safety
model: the app never modifies a playlist it did not create in the current run;
everything else is read-only source material, and deleting it takes a guarded,
byte-exact confirmation.

## Layout

- `src/` — the library, verified with Verus:
  - `safety.rs` — the session/protected tiers, edit and delete grants, and the
    guarded deletion flow, with the laws of the policy as proof functions;
  - `ops/` — the decisions behind every feature: resolution of suggested
    tracks, dedupe, merge, stable sort, import parsing, export rows, the
    library digest, insights, and where each result is written;
  - `ai/` — prompts, answer extraction, and the decisions of the two AI
    providers (the assistant CLI and the Messages API);
  - `spotify/` — API models, the retry policy and request chunking, and the
    PKCE/token rules;
  - `shuffle.rs` — Fisher–Yates over a ChaCha20 generator seeded from the OS;
  - `text.rs`, `util.rs`, `order.rs` — verified string handling, JSON
    extraction, title normalization, and a stable sort.
- `tests/` — tests of the library on concrete values.
- `app/` — the program around the library: config and token files, HTTP, the
  AI child process, the background worker and the egui window.

## Configuration

`config.toml` in the platform config directory (`spotify-shuffle/`):

```toml
[spotify]
client_id = "…"          # your own app from the Spotify developer dashboard
redirect_port = 8888      # register http://127.0.0.1:8888/callback exactly
create_public = false

[ai]
provider = "subscription-cli"   # or "messages-api"
cli_binary = "/path/to/assistant-cli"
cli_model = ""                  # empty: the CLI's own default
cli_timeout_secs = 600
cli_env_remove = []             # variables stripped from the CLI's environment
api_url = ""                    # Messages API endpoint
api_model = ""
api_key_env = ""                # name of the variable holding the key
api_version_header = ""
```

The provider settings have no built-in values: the Messages API provider
refuses to run until `api_url`, `api_model`, `api_key_env` and
`api_version_header` are set, and `cli_env_remove` should list the
environment variables that would switch the CLI to pay-per-token billing.
A bare `cli_binary` name is looked up on `PATH`, then in `~/.local/bin`,
`/opt/homebrew/bin` and `/usr/local/bin`.

Files live in `spotify-shuffle/` under the platform config directory (the
current directory when there is none): `config.toml`, `tokens.json` (owner
read/write only) and the empty `cli-workdir/`. A directory left by earlier
builds under the name `playlist-studio/` is moved there once. Play times in
the insights view, and log times, are local.
