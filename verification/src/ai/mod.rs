//! The AI layer: requests, errors, the prompt builders in [`prompts`], and
//! the decisions of the two providers ([`cli`], [`messages_api`]). The
//! processes and HTTP requests themselves live in the application.

use vstd::prelude::*;

pub mod cli;
pub mod messages_api;
pub mod prompts;

verus! {

/// Why an AI operation failed. Transport failures carry the underlying
/// error's text.
#[derive(Clone, Debug, PartialEq, Eq)]
pub enum AiError {
    /// The provider is not configured (missing binary, key, ...).
    Config(String),
    /// The provider ran but reported an error.
    Provider(String),
    /// The provider did not answer within this many seconds.
    Timeout(u64),
    /// The provider's answer could not be understood.
    Parse(String),
    /// A network failure talking to the provider.
    Network(String),
    /// A local I/O failure launching the provider.
    Io(String),
}

/// One-shot generation request. `system` sets role/format rules; `user`
/// carries the task payload.
#[derive(Clone, Debug)]
pub struct AiRequest {
    pub system: String,
    pub user: String,
}

} // verus!
