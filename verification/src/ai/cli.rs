//! The assistant CLI provider: how the CLI is invoked in headless print mode
//! and how its answers are read. The application spawns the process, feeds
//! it the prompt on stdin, and removes the configured billing overrides from
//! its environment.
//!
//! Invocation:
//!
//! ```text
//! <cli> -p --output-format json --tools "" --strict-mcp-config \
//!       --setting-sources user --no-session-persistence \
//!       [--model M] [--append-system-prompt SYS]
//! ```
//!
//! * the prompt is piped via stdin (no argv length limits);
//! * `--tools ""` disables all tools — pure text generation;
//! * `--strict-mcp-config` with no `--mcp-config` loads zero MCP servers;
//! * `--setting-sources user` ignores whatever project the app was launched
//!   from; the working directory is additionally an empty scratch dir;
//! * `--no-session-persistence` keeps these one-shot runs out of the user's
//!   session history.

use vstd::prelude::*;

use super::prompts::views;
use super::AiError;
use crate::config::AiConfig;
use crate::text::{chars_of, decimal, owned, push_decimal, push_str, slice_chars, string_of,
    trim_spec, trimmed};

verus! {

/// The provider as configured: the resolved binary, the model (empty for the
/// CLI's default), the per-call timeout and the scratch working directory.
pub struct CliProvider {
    pub binary: std::path::PathBuf,
    pub model: String,
    pub timeout_secs: u64,
    pub workdir: std::path::PathBuf,
}

impl CliProvider {
    /// The provider for `cfg`, with the binary and working directory the
    /// application located. The timeout is never below 30 seconds.
    pub fn new(binary: std::path::PathBuf, workdir: std::path::PathBuf, cfg: &AiConfig) -> (p: Self)
        ensures
            p.binary == binary,
            p.workdir == workdir,
            p.model@ == cfg.cli_model@,
            p.timeout_secs == if cfg.cli_timeout_secs < 30 {
                30
            } else {
                cfg.cli_timeout_secs
            },
    {
        let t = if cfg.cli_timeout_secs < 30 {
            30
        } else {
            cfg.cli_timeout_secs
        };
        CliProvider { binary, model: cfg.cli_model.clone(), timeout_secs: t, workdir }
    }

    /// The command-line arguments of one generation with system prompt
    /// `system`.
    pub fn cli_args(&self, system: &str) -> (a: Vec<String>)
        ensures
            views(a@) == cli_args_spec(self.model@, system@),
    {
        let mut a: Vec<String> = Vec::new();
        a.push(owned("-p"));
        a.push(owned("--output-format"));
        a.push(owned("json"));
        a.push(owned("--tools"));
        a.push(String::new());
        a.push(owned("--strict-mcp-config"));
        a.push(owned("--setting-sources"));
        a.push(owned("user"));
        a.push(owned("--no-session-persistence"));
        proof {
            reveal_strlit("");
            assert(views(a@) =~= base_args());
        }
        let ghost base = views(a@);
        if !self.model.as_str().is_empty() {
            a.push(owned("--model"));
            a.push(self.model.clone());
        }
        let ghost mid = views(a@);
        if !system.is_empty() {
            a.push(owned("--append-system-prompt"));
            a.push(owned(system));
        }
        proof {
            assert(views(a@) =~= cli_args_spec(self.model@, system@));
        }
        a
    }

    /// The line shown in Settings and logs for this provider, whose binary
    /// displays as `binary`.
    pub fn describe_text(&self, binary: &str) -> (s: String)
        ensures
            s@ == "Assistant CLI (subscription) — "@ + binary@ + " · "@ + (if self.model@.len() == 0 {
                "CLI default model"@
            } else {
                self.model@
            }),
    {
        let mut s = owned("Assistant CLI (subscription) — ");
        push_str(&mut s, binary);
        push_str(&mut s, " · ");
        if self.model.as_str().is_empty() {
            push_str(&mut s, "CLI default model");
        } else {
            push_str(&mut s, self.model.as_str());
        }
        s
    }
}

/// The fixed leading arguments of every generation.
pub open spec fn base_args() -> Seq<Seq<char>> {
    seq![
        "-p"@,
        "--output-format"@,
        "json"@,
        "--tools"@,
        Seq::empty(),
        "--strict-mcp-config"@,
        "--setting-sources"@,
        "user"@,
        "--no-session-persistence"@,
    ]
}

/// The arguments of a generation: the fixed ones, then `--model` when a
/// model is set, then `--append-system-prompt` when there is a system prompt.
pub open spec fn cli_args_spec(model: Seq<char>, system: Seq<char>) -> Seq<Seq<char>> {
    base_args() + (if model.len() > 0 {
        seq!["--model"@, model]
    } else {
        Seq::empty()
    }) + (if system.len() > 0 {
        seq!["--append-system-prompt"@, system]
    } else {
        Seq::empty()
    })
}

/// The JSON envelope the CLI prints (the reported cost is read by the
/// application for its log only).
#[derive(Clone, Debug)]
pub struct ResultEnvelope {
    pub subtype: Option<String>,
    pub is_error: bool,
    pub result: Option<String>,
    pub api_error_status: Option<u32>,
}

/// The error text of an error envelope: its result when not blank, else its
/// subtype, else a generic text; then the API status if any, with a hint on
/// usage limits for status 429.
pub open spec fn envelope_error_text(e: ResultEnvelope) -> Seq<char> {
    let base = match e.result {
        Some(r) if trim_spec(r@).len() > 0 => r@,
        _ => match e.subtype {
            Some(s) => s@,
            None => "unknown CLI error"@,
        },
    };
    base + match e.api_error_status {
        Some(st) => " (API status "@ + decimal(st as nat) + ")"@ + if st == 429 {
            " — this usually means the subscription usage limit was reached; it resets on a rolling window"@
        } else {
            Seq::empty()
        },
        None => Seq::empty(),
    }
}

/// The error text of an error envelope.
pub fn envelope_error(e: &ResultEnvelope) -> (m: String)
    ensures
        m@ == envelope_error_text(*e),
{
    let mut m = match &e.result {
        Some(r) if !trimmed(r.as_str()).as_str().is_empty() => r.clone(),
        _ => match &e.subtype {
            Some(s) => s.clone(),
            None => owned("unknown CLI error"),
        },
    };
    let ghost base = m@;
    match e.api_error_status {
        Some(st) => {
            push_str(&mut m, " (API status ");
            push_decimal(&mut m, st as u64);
            push_str(&mut m, ")");
            if st == 429 {
                push_str(
                    &mut m,
                    " — this usually means the subscription usage limit was reached; it resets on a rolling window",
                );
            } else {
                assert(m@ =~= m@ + Seq::<char>::empty());
            }
        },
        None => {
            assert(m@ =~= base + Seq::<char>::empty());
        },
    }
    m
}

/// The answer a successful run's envelope carries, or the error it reports.
pub fn envelope_answer(e: &ResultEnvelope) -> (r: Result<String, AiError>)
    ensures
        match r {
            Ok(a) => !e.is_error && e.result == Some(a),
            Err(AiError::Provider(m)) => e.is_error && m@ == envelope_error_text(*e),
            Err(AiError::Parse(m)) => !e.is_error && e.result is None && m@
                == "CLI envelope had no `result` field"@,
            Err(_) => false,
        },
{
    if e.is_error {
        return Err(AiError::Provider(envelope_error(e)));
    }
    match &e.result {
        Some(r) => Ok(r.clone()),
        None => Err(AiError::Parse(owned("CLI envelope had no `result` field"))),
    }
}

/// The first `n` characters of `s` (all of it when shorter).
pub open spec fn first_chars(s: Seq<char>, n: nat) -> Seq<char> {
    if s.len() > n {
        s.take(n as int)
    } else {
        s
    }
}

/// The last `n` characters of `s` (all of it when shorter).
pub open spec fn last_chars(s: Seq<char>, n: nat) -> Seq<char> {
    if s.len() > n {
        s.skip(s.len() - n)
    } else {
        s
    }
}

/// The first `n` characters of `s`.
pub fn first_chars_of(s: &str, n: usize) -> (r: String)
    ensures
        r@ == first_chars(s@, n as nat),
{
    let v = chars_of(s);
    if v.len() > n {
        string_of(&slice_chars(&v, 0, n))
    } else {
        owned(s)
    }
}

/// The last `n` characters of `s`.
pub fn last_chars_of(s: &str, n: usize) -> (r: String)
    ensures
        r@ == last_chars(s@, n as nat),
{
    let v = chars_of(s);
    if v.len() > n {
        let r = string_of(&slice_chars(&v, v.len() - n, v.len()));
        proof {
            assert(v@.subrange(v@.len() - n, v@.len() as int) =~= s@.skip(s@.len() - n));
        }
        r
    } else {
        owned(s)
    }
}

/// The error of a run that exited unsuccessfully without an envelope:
/// the exit status and the last 400 characters of stderr, or the first
/// 400 of stdout when stderr is blank.
pub fn exit_failure(status: &str, stderr: &str, stdout: &str) -> (e: AiError)
    ensures
        match e {
            AiError::Provider(m) => m@ == "the CLI exited with "@ + status@ + ": "@ + if trim_spec(
                last_chars(stderr@, 400),
            ).len() == 0 {
                first_chars(stdout@, 400)
            } else {
                last_chars(stderr@, 400)
            },
            _ => false,
        },
{
    let tail = last_chars_of(stderr, 400);
    let detail = if trimmed(tail.as_str()).as_str().is_empty() {
        first_chars_of(stdout, 400)
    } else {
        tail
    };
    let mut m = owned("the CLI exited with ");
    push_str(&mut m, status);
    push_str(&mut m, ": ");
    push_str(&mut m, detail.as_str());
    AiError::Provider(m)
}

/// The error when the CLI's output is not an envelope.
pub fn unexpected_output(decoder_message: &str, stdout: &str) -> (e: AiError)
    ensures
        match e {
            AiError::Parse(m) => m@ == "unexpected CLI output ("@ + decoder_message@ + "): "@
                + first_chars(stdout@, 300),
            _ => false,
        },
{
    let mut m = owned("unexpected CLI output (");
    push_str(&mut m, decoder_message);
    push_str(&mut m, "): ");
    let head = first_chars_of(stdout, 300);
    push_str(&mut m, head.as_str());
    AiError::Parse(m)
}

/// The outcome of the health check from `<cli> --version` (its trimmed
/// output) and `<cli> auth status --json` (whether it succeeded and what
/// it reported).
pub fn health_outcome(
    version: &str,
    status_ok: bool,
    logged_in: bool,
    auth_method: Option<String>,
    subscription: Option<String>,
) -> (r: Result<String, AiError>)
    ensures
        match r {
            Ok(m) => status_ok && logged_in && m@ == "Assistant CLI "@ + version@ + " — logged in via "@
                + match auth_method {
                Some(a) => a@,
                None => "unknown"@,
            } + match subscription {
                Some(p) => " ("@ + p@ + " plan)"@,
                None => Seq::empty(),
            },
            Err(AiError::Provider(m)) => !(status_ok && logged_in) && m@ == "Assistant CLI "@ + version@
                + " is installed but not logged in — run it once in a terminal and use /login"@,
            Err(_) => false,
        },
{
    if !status_ok || !logged_in {
        let mut m = owned("Assistant CLI ");
        push_str(&mut m, version);
        push_str(
            &mut m,
            " is installed but not logged in — run it once in a terminal and use /login",
        );
        return Err(AiError::Provider(m));
    }
    let mut m = owned("Assistant CLI ");
    push_str(&mut m, version);
    push_str(&mut m, " — logged in via ");
    match &auth_method {
        Some(a) => push_str(&mut m, a.as_str()),
        None => push_str(&mut m, "unknown"),
    }
    let ghost before = m@;
    match &subscription {
        Some(p) => {
            push_str(&mut m, " (");
            push_str(&mut m, p.as_str());
            push_str(&mut m, " plan)");
        },
        None => {
            assert(m@ =~= before + Seq::<char>::empty());
        },
    }
    Ok(m)
}

/// The error when the CLI binary could not be found.
pub fn binary_not_found() -> (e: AiError)
    ensures
        match e {
            AiError::Config(m) => m@
                == "the assistant CLI was not found — install it, or set ai.cli_binary in config.toml"@,
            _ => false,
        },
{
    AiError::Config(
        owned(
            "the assistant CLI was not found — install it, or set ai.cli_binary in config.toml",
        ),
    )
}

} // verus!
