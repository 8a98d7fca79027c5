//! The decisions of the Spotify Web API client (February 2026 surface):
//! when to retry a request, how to phrase a failed status, how writes are
//! split into API-sized chunks, and how user text is clamped to the API's
//! limits. The HTTP transport itself lives in the application.

use vstd::prelude::*;

use crate::spotify::auth::AuthError;
use crate::text::{chars_of, owned, push_str, slice_chars, string_of};

verus! {

/// Max URIs per add/replace request, fixed by the API.
pub const TRACK_WRITE_CHUNK: usize = 100;

/// Max 429 waits per request.
pub const MAX_RATE_LIMIT_WAITS: u8 = 5;

/// Max retries of a 5xx answer per request.
pub const MAX_SERVER_RETRIES: u8 = 2;

#[derive(Clone, Debug)]
pub enum ApiError {
    Auth(AuthError),
    /// A transport failure (the underlying error's text).
    Network(String),
    Status { status: u16, message: String },
    Decode(String),
}

/// Which route a playlist deletion ultimately used (for the operation log).
#[derive(Clone, Copy, Debug, PartialEq, Eq, Structural)]
pub enum DeleteRoute {
    /// `DELETE /me/library` — the current endpoint.
    Library,
    /// `DELETE /playlists/{id}/followers` — deprecated fallback.
    LegacyUnfollow,
}

/// What the client has already spent on one request.
#[derive(Clone, Copy, Debug, PartialEq, Eq, Structural)]
pub struct RetryBudget {
    pub refreshed_after_401: bool,
    pub server_retries: u8,
    pub rate_limit_waits: u8,
}

impl RetryBudget {
    pub fn new() -> (b: RetryBudget)
        ensures
            b == (RetryBudget { refreshed_after_401: false, server_retries: 0, rate_limit_waits: 0 }),
    {
        RetryBudget { refreshed_after_401: false, server_retries: 0, rate_limit_waits: 0 }
    }
}

/// What to do with an HTTP answer.
#[derive(Clone, Copy, Debug, PartialEq, Eq, Structural)]
pub enum NextStep {
    /// 2xx: hand the response to the caller.
    Done,
    /// 401 (first time): refresh the token, then resend.
    RefreshAndRetry,
    /// 429: wait this many seconds, then resend.
    WaitAndRetry(u64),
    /// 500–504: wait a second, then resend.
    PauseAndRetry,
    /// Anything else: report the status as an error.
    Fail,
}

/// The retry policy: 2xx succeeds; one token refresh on 401; up to five
/// waits on 429 honoring `Retry-After` (default 2 s, capped at 120 s, plus
/// one second); up to two retries of 500–504; everything else fails.
pub open spec fn next_step_spec(status: u16, budget: RetryBudget, retry_after: Option<u64>) -> (
    NextStep,
    RetryBudget,
) {
    if 200 <= status <= 299 {
        (NextStep::Done, budget)
    } else if status == 401 && !budget.refreshed_after_401 {
        (NextStep::RefreshAndRetry, RetryBudget { refreshed_after_401: true, ..budget })
    } else if status == 429 && budget.rate_limit_waits < MAX_RATE_LIMIT_WAITS {
        let wait: u64 = match retry_after {
            Some(w) => if w < 120 {
                w
            } else {
                120
            },
            None => 2,
        };
        (
            NextStep::WaitAndRetry((wait + 1) as u64),
            RetryBudget { rate_limit_waits: (budget.rate_limit_waits + 1) as u8, ..budget },
        )
    } else if 500 <= status <= 504 && budget.server_retries < MAX_SERVER_RETRIES {
        (
            NextStep::PauseAndRetry,
            RetryBudget { server_retries: (budget.server_retries + 1) as u8, ..budget },
        )
    } else {
        (NextStep::Fail, budget)
    }
}

/// Decide what to do with an answer of `status`; `retry_after` is the
/// parsed `Retry-After` header, if present and numeric.
pub fn next_step(status: u16, budget: RetryBudget, retry_after: Option<u64>) -> (r: (
    NextStep,
    RetryBudget,
))
    ensures
        r == next_step_spec(status, budget, retry_after),
{
    if 200 <= status && status <= 299 {
        (NextStep::Done, budget)
    } else if status == 401 && !budget.refreshed_after_401 {
        (NextStep::RefreshAndRetry, RetryBudget { refreshed_after_401: true, ..budget })
    } else if status == 429 && budget.rate_limit_waits < MAX_RATE_LIMIT_WAITS {
        let wait: u64 = match retry_after {
            Some(w) => if w < 120 {
                w
            } else {
                120
            },
            None => 2,
        };
        (
            NextStep::WaitAndRetry(wait + 1),
            RetryBudget { rate_limit_waits: budget.rate_limit_waits + 1, ..budget },
        )
    } else if 500 <= status && status <= 504 && budget.server_retries < MAX_SERVER_RETRIES {
        (NextStep::PauseAndRetry, RetryBudget { server_retries: budget.server_retries + 1, ..budget })
    } else {
        (NextStep::Fail, budget)
    }
}

/// A request is retried a bounded number of times: every retry spends
/// budget that never comes back, so at most 1 + 5 + 2 resends happen.
pub open spec fn budget_spent(b: RetryBudget) -> nat {
    (if b.refreshed_after_401 {
        1nat
    } else {
        0nat
    }) + b.rate_limit_waits as nat + b.server_retries as nat
}

pub proof fn law_retries_are_bounded(status: u16, budget: RetryBudget, retry_after: Option<u64>)
    requires
        budget.rate_limit_waits <= MAX_RATE_LIMIT_WAITS,
        budget.server_retries <= MAX_SERVER_RETRIES,
    ensures
        ({
            let (step, next) = next_step_spec(status, budget, retry_after);
            &&& next.rate_limit_waits <= MAX_RATE_LIMIT_WAITS
            &&& next.server_retries <= MAX_SERVER_RETRIES
            &&& (step == NextStep::Done || step == NextStep::Fail) ==> next == budget
            &&& (step != NextStep::Done && step != NextStep::Fail) ==> budget_spent(next)
                == budget_spent(budget) + 1
            &&& budget_spent(next) <= 8
        }),
{
}

/// The explanation appended to a 403 answer.
pub open spec fn forbidden_hint() -> Seq<char> {
    " — hints: development-mode apps can only read the contents of playlists the user OWNS or collaborates on; the account must be allowlisted under 'User Management' in the Spotify dashboard; and scope changes require disconnecting and reconnecting."@
}

/// The message of a failed answer: the API's own error message when the
/// body carried one, else the first 300 characters of the body; a 403
/// additionally explains the development-mode restrictions.
pub open spec fn status_message(status: u16, api_message: Option<Seq<char>>, body: Seq<char>) -> Seq<
    char,
> {
    let base = match api_message {
        Some(m) => m,
        None => body.take(if body.len() < 300 {
            body.len() as int
        } else {
            300
        }),
    };
    if status == 403 {
        base + forbidden_hint()
    } else {
        base
    }
}

/// The error for a failed answer of `status`. `api_message` is the
/// `error.message` field the application decoded from `body`, if any.
pub fn status_error(status: u16, api_message: Option<&str>, body: &str) -> (e: ApiError)
    ensures
        match e {
            ApiError::Status { status: s, message } => s == status && message@ == status_message(
                status,
                match api_message {
                    Some(m) => Some(m@),
                    None => None,
                },
                body@,
            ),
            _ => false,
        },
{
    let mut message = match api_message {
        Some(m) => owned(m),
        None => truncate_chars(body, 300),
    };
    if status == 403 {
        push_str(
            &mut message,
            " — hints: development-mode apps can only read the contents of playlists the user OWNS or collaborates on; the account must be allowlisted under 'User Management' in the Spotify dashboard; and scope changes require disconnecting and reconnecting.",
        );
    }
    ApiError::Status { status, message }
}

/// The first `n` characters of `s`.
pub fn truncate_chars(s: &str, n: usize) -> (r: String)
    ensures
        r@ == s@.take(
            if s@.len() < n {
                s@.len() as int
            } else {
                n as int
            },
        ),
{
    let v = chars_of(s);
    let end = if v.len() < n {
        v.len()
    } else {
        n
    };
    string_of(&slice_chars(&v, 0, end))
}

/// Playlist descriptions are clamped to 300 characters before they are
/// sent (Spotify clients cap them around there).
pub fn clamp_description(description: &str) -> (r: String)
    ensures
        r@ == description@.take(
            if description@.len() < 300 {
                description@.len() as int
            } else {
                300
            },
        ),
{
    truncate_chars(description, 300)
}

/// The search page limit is 1 to 10 since February 2026.
pub fn search_limit(limit: u8) -> (r: u8)
    ensures
        r == if limit < 1 {
            1
        } else if limit > 10 {
            10
        } else {
            limit
        },
{
    if limit < 1 {
        1
    } else if limit > 10 {
        10
    } else {
        limit
    }
}

/// `(start, end)` ranges cutting `0..len` into consecutive chunks of at
/// most `TRACK_WRITE_CHUNK`, in order, covering everything once.
pub open spec fn is_chunking(ranges: Seq<(usize, usize)>, len: nat) -> bool {
    &&& forall|k: int|
        0 <= k < ranges.len() ==> (#[trigger] ranges[k]).0 < ranges[k].1 && ranges[k].1
            - ranges[k].0 <= TRACK_WRITE_CHUNK
    &&& ranges.len() > 0 ==> ranges[0].0 == 0 && ranges.last().1 == len
    &&& ranges.len() == 0 <==> len == 0
    &&& forall|k: int| 0 <= k < ranges.len() - 1 ==> (#[trigger] ranges[k]).1 == ranges[k + 1].0
    &&& forall|k: int| 0 <= k < ranges.len() - 1 ==> (#[trigger] ranges[k]).1 - ranges[k].0
        == TRACK_WRITE_CHUNK
}

/// The request chunks for writing `len` URIs (as `slice::chunks`).
pub fn write_chunks(len: usize) -> (ranges: Vec<(usize, usize)>)
    ensures
        is_chunking(ranges@, len as nat),
{
    let mut ranges: Vec<(usize, usize)> = Vec::new();
    let mut start: usize = 0;
    while start < len
        invariant
            start <= len,
            ranges@.len() > 0 ==> ranges@[0].0 == 0 && ranges@.last().1 == start,
            ranges@.len() == 0 <==> start == 0,
            forall|k: int|
                0 <= k < ranges@.len() ==> (#[trigger] ranges@[k]).0 < ranges@[k].1 && ranges@[k].1
                    - ranges@[k].0 <= TRACK_WRITE_CHUNK,
            forall|k: int|
                0 <= k < ranges@.len() - 1 ==> (#[trigger] ranges@[k]).1 == ranges@[k + 1].0,
            forall|k: int|
                0 <= k < ranges@.len() - 1 ==> (#[trigger] ranges@[k]).1 - ranges@[k].0
                    == TRACK_WRITE_CHUNK,
            ranges@.len() > 0 && start < len ==> ranges@.last().1 - ranges@.last().0
                == TRACK_WRITE_CHUNK,
        decreases len - start,
    {
        let end = if len - start > TRACK_WRITE_CHUNK {
            start + TRACK_WRITE_CHUNK
        } else {
            len
        };
        ranges.push((start, end));
        start = end;
    }
    ranges
}

/// Whether a failed `DELETE /me/library` of `status` falls back to the
/// deprecated unfollow endpoint: any client error but 401.
pub fn use_legacy_unfollow(status: u16) -> (b: bool)
    ensures
        b == (400 <= status < 500 && status != 401),
{
    400 <= status && status < 500 && status != 401
}

/// The URI of playlist `id`, as the library endpoint takes it.
pub fn playlist_uri(id: &str) -> (s: String)
    ensures
        s@ == "spotify:playlist:"@ + id@,
{
    let mut s = owned("spotify:playlist:");
    push_str(&mut s, id);
    s
}

} // verus!
