//! Errors of the safety-gated gateway to Spotify.
//!
//! The gateway itself (in the application) is the only path to playlist
//! mutation: every mutating call first obtains a grant from the session's
//! [`crate::safety::SafetyPolicy`] and passes the *grant's* playlist id to
//! the HTTP client.

use vstd::prelude::*;

use crate::safety::SafetyError;
use crate::spotify::client::ApiError;

verus! {

#[derive(Clone, Debug)]
pub enum ServiceError {
    /// A safety-model refusal: the operation was blocked before any request
    /// was sent.
    Safety(SafetyError),
    Api(ApiError),
}

} // verus!
