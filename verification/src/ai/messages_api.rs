//! The Messages API provider: request settings, retry decisions and how
//! answers are read. The application sends the HTTP requests to the
//! configured endpoint and decodes the JSON bodies into the plain values
//! used here.
//!
//! Request shape:
//! * `POST <api_url>` with the `x-api-key` header and API version
//!   `2023-06-01`;
//! * no `temperature`/`top_p`/`top_k`, and no `thinking` parameter;
//! * `max_tokens` 16000, non-streaming.

use vstd::prelude::*;

use super::cli::{first_chars, first_chars_of};
use super::prompts::{join, join_strings, views};
use super::AiError;
use crate::config::AiConfig;
use crate::text::{decimal, owned, push_decimal, push_str, str_eq, trim_spec, trimmed};

verus! {

/// The API version sent with every request.
pub const API_VERSION: &'static str = "2023-06-01";

/// The answer length asked for.
pub const MAX_TOKENS: u32 = 16000;

/// The provider needs its endpoint, model and key variable configured.
pub fn check_api_config(cfg: &AiConfig) -> (r: Result<(), AiError>)
    ensures
        match r {
            Ok(()) => cfg.api_url@.len() > 0 && cfg.api_model@.len() > 0 && cfg.api_key_env@.len() > 0,
            Err(AiError::Config(m)) => !(cfg.api_url@.len() > 0 && cfg.api_model@.len() > 0
                && cfg.api_key_env@.len() > 0) && m@
                == "the Messages API provider needs ai.api_url, ai.api_model and ai.api_key_env in config.toml"@,
            Err(_) => false,
        },
{
    if cfg.api_url.as_str().is_empty() || cfg.api_model.as_str().is_empty()
        || cfg.api_key_env.as_str().is_empty() {
        return Err(
            AiError::Config(
                owned(
                    "the Messages API provider needs ai.api_url, ai.api_model and ai.api_key_env in config.toml",
                ),
            ),
        );
    }
    Ok(())
}

/// The error when the key's environment variable is not set.
pub fn missing_key(key_env: &str) -> (e: AiError)
    ensures
        match e {
            AiError::Config(m) => m@ == "the Messages API provider needs an API key in $"@ + key_env@
                + " (or switch ai.provider back to \"subscription-cli\")"@,
            _ => false,
        },
{
    let mut m = owned("the Messages API provider needs an API key in $");
    push_str(&mut m, key_env);
    push_str(&mut m, " (or switch ai.provider back to \"subscription-cli\")");
    AiError::Config(m)
}

/// The line shown in Settings and logs.
pub fn describe_text(model: &str, key_env: &str) -> (s: String)
    ensures
        s@ == "Messages API (pay per token) — "@ + model@ + " · key from $"@ + key_env@,
{
    let mut s = owned("Messages API (pay per token) — ");
    push_str(&mut s, model);
    push_str(&mut s, " · key from $");
    push_str(&mut s, key_env);
    s
}

/// The passive health line (a real generation costs money).
pub fn health_text(model: &str, key_env: &str, key_len: usize) -> (s: String)
    ensures
        s@ == "Messages API configured: model "@ + model@ + ", key present in $"@ + key_env@ + " ("@
            + decimal(key_len as nat) + " chars)"@,
{
    let mut s = owned("Messages API configured: model ");
    push_str(&mut s, model);
    push_str(&mut s, ", key present in $");
    push_str(&mut s, key_env);
    push_str(&mut s, " (");
    push_decimal(&mut s, key_len as u64);
    push_str(&mut s, " chars)");
    s
}

/// Whether attempt number `attempt` (from 1) that got HTTP `status` is
/// retried, and after how long: rate limits and server errors are retried
/// up to the third attempt, after the server's `retry-after` seconds or
/// else 2^attempt seconds. The pair is (announced wait, slept wait), the
/// sleep being capped at 60 seconds.
pub open spec fn retry_wait_spec(status: u16, attempt: u8, retry_after: Option<u64>) -> Option<(nat, nat)> {
    if (status == 429 || status >= 500) && attempt < 3 {
        let wait: nat = match retry_after {
            Some(w) => w as nat,
            None => if attempt == 0 {
                1
            } else if attempt == 1 {
                2
            } else {
                4
            },
        };
        Some((wait, if wait > 60 { 60 } else { wait }))
    } else {
        None
    }
}

/// The retry decision after an attempt (see [`retry_wait_spec`]).
pub fn retry_wait(status: u16, attempt: u8, retry_after: Option<u64>) -> (r: Option<(u64, u64)>)
    ensures
        match r {
            Some(p) => retry_wait_spec(status, attempt, retry_after) == Some((p.0 as nat, p.1 as nat)),
            None => retry_wait_spec(status, attempt, retry_after) is None,
        },
{
    if (status == 429 || status >= 500) && attempt < 3 {
        let wait: u64 = match retry_after {
            Some(w) => w,
            None => if attempt == 0 {
                1
            } else if attempt == 1 {
                2
            } else {
                4
            },
        };
        Some((wait, if wait > 60 { 60 } else { wait }))
    } else {
        None
    }
}

/// The error of a failed request: the API's own error type and message
/// when its body is an error envelope, else the HTTP status and the first
/// 300 characters of the body.
pub fn request_error(status: &str, body: &str, envelope: Option<(String, String)>) -> (e: AiError)
    ensures
        match e {
            AiError::Provider(m) => m@ == match envelope {
                Some(p) => p.0@ + ": "@ + p.1@,
                None => "HTTP "@ + status@ + ": "@ + first_chars(body@, 300),
            },
            _ => false,
        },
{
    match envelope {
        Some((t, msg)) => {
            let mut m = t;
            push_str(&mut m, ": ");
            push_str(&mut m, msg.as_str());
            AiError::Provider(m)
        },
        None => {
            let mut m = owned("HTTP ");
            push_str(&mut m, status);
            push_str(&mut m, ": ");
            let head = first_chars_of(body, 300);
            push_str(&mut m, head.as_str());
            AiError::Provider(m)
        },
    }
}

/// One content block of an answer: its type and text.
#[derive(Clone, Debug)]
pub struct ContentBlock {
    pub block_type: String,
    pub text: String,
}

/// The texts of the `text` blocks, in order.
pub open spec fn text_blocks(blocks: Seq<ContentBlock>) -> Seq<Seq<char>>
    decreases blocks.len(),
{
    if blocks.len() == 0 {
        Seq::empty()
    } else {
        let prev = text_blocks(blocks.drop_last());
        if blocks.last().block_type@ == "text"@ {
            prev.push(blocks.last().text@)
        } else {
            prev
        }
    }
}

/// What an answer with `stop_reason` and `blocks` yields: a refusal or a
/// truncated answer is a provider error; otherwise the text blocks joined
/// with newlines, which must not be blank (else a parse error). An error is
/// given as (is it a provider error, its message).
pub open spec fn answer_spec(stop_reason: Option<Seq<char>>, blocks: Seq<ContentBlock>) -> Result<Seq<char>, (bool, Seq<char>)> {
    if stop_reason == Some("refusal"@) {
        Err((true, "the model declined this request (stop_reason: refusal)"@))
    } else if stop_reason == Some("max_tokens"@) {
        Err((true, "the response was truncated at the token limit; try a smaller request (fewer tracks)"@))
    } else if trim_spec(join(text_blocks(blocks), "\n"@)).len() == 0 {
        Err((false, "the API response contained no text"@))
    } else {
        Ok(join(text_blocks(blocks), "\n"@))
    }
}

/// The characters of an optional string.
pub open spec fn opt_chars(o: Option<String>) -> Option<Seq<char>> {
    match o {
        Some(s) => Some(s@),
        None => None,
    }
}

/// Read an answer (see [`answer_spec`]).
pub fn answer(stop_reason: Option<String>, blocks: &Vec<ContentBlock>) -> (r: Result<String, AiError>)
    ensures
        match (r, answer_spec(opt_chars(stop_reason), blocks@)) {
            (Ok(a), Ok(b)) => a@ == b,
            (Err(AiError::Provider(m)), Err(e)) => e.0 && m@ == e.1,
            (Err(AiError::Parse(m)), Err(e)) => !e.0 && m@ == e.1,
            _ => false,
        },
{
    match &stop_reason {
        Some(s) => {
            if str_eq(s.as_str(), "refusal") {
                return Err(
                    AiError::Provider(owned("the model declined this request (stop_reason: refusal)")),
                );
            }
            if str_eq(s.as_str(), "max_tokens") {
                return Err(
                    AiError::Provider(
                        owned(
                            "the response was truncated at the token limit; try a smaller request (fewer tracks)",
                        ),
                    ),
                );
            }
        },
        None => {},
    }
    let mut texts: Vec<String> = Vec::new();
    let mut i: usize = 0;
    while i < blocks.len()
        invariant
            i <= blocks@.len(),
            views(texts@) == text_blocks(blocks@.take(i as int)),
        decreases blocks@.len() - i,
    {
        proof {
            assert(blocks@.take(i + 1).drop_last() =~= blocks@.take(i as int));
            assert(blocks@.take(i + 1).last() == blocks@[i as int]);
        }
        if str_eq(blocks[i].block_type.as_str(), "text") {
            let ghost before = texts@;
            texts.push(blocks[i].text.clone());
            proof {
                assert(views(texts@) =~= views(before).push(blocks@[i as int].text@));
            }
        }
        i += 1;
    }
    proof {
        assert(blocks@.take(blocks@.len() as int) =~= blocks@);
    }
    let combined = join_strings(&texts, "\n");
    if trimmed(combined.as_str()).as_str().is_empty() {
        return Err(AiError::Parse(owned("the API response contained no text")));
    }
    Ok(combined)
}

} // verus!
