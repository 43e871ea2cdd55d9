//! The resilience discipline shared by the transcription and enhancement
//! clients: how a response status is classified, how long to back off, how
//! long to wait when rate-limited, and when to give up.
use vstd::prelude::*;
use vstd::arithmetic::power2::{pow2, lemma2_to64};

verus! {

/// Automatic retries after a rate-limited response, counted apart from the
/// general retry budget.
pub const MAX_RATE_LIMIT_RETRIES: u32 = 5;

/// The ceiling of the exponential backoff, in seconds.
pub const MAX_BACKOFF_SEC: u64 = 16;

/// The wait after a rate-limited response that suggests none, in seconds.
pub const DEFAULT_RATE_LIMIT_WAIT_SEC: u64 = 5;

/// The bounds of a rate-limit wait, in seconds.
pub const MIN_RATE_LIMIT_WAIT_SEC: u64 = 1;
pub const MAX_RATE_LIMIT_WAIT_SEC: u64 = 60;

/// What a failed request calls for.
#[derive(Debug, Clone, Copy, PartialEq, Eq, Structural)]
pub enum Failure {
    /// A timeout, a connection error or a server error: worth retrying.
    Transient,
    /// The server asked to wait this many seconds.
    RateLimited(u64),
    /// Retrying cannot help.
    Terminal,
}

/// How an HTTP response status is handled.
#[derive(Debug, Clone, Copy, PartialEq, Eq, Structural)]
pub enum StatusClass {
    Success,
    Unauthorized,
    TooManyRequests,
    Failed,
}

pub open spec fn status_class(status: u16) -> StatusClass {
    if status == 401 {
        StatusClass::Unauthorized
    } else if status == 429 {
        StatusClass::TooManyRequests
    } else if 200 <= status < 300 {
        StatusClass::Success
    } else {
        StatusClass::Failed
    }
}

/// Classifies an HTTP response status.
pub fn classify_status(status: u16) -> (r: StatusClass)
    ensures
        r == status_class(status),
{
    if status == 401 {
        StatusClass::Unauthorized
    } else if status == 429 {
        StatusClass::TooManyRequests
    } else if 200 <= status && status < 300 {
        StatusClass::Success
    } else {
        StatusClass::Failed
    }
}

/// What a probe of an API key with status `status` tells: valid on
/// success, invalid when unauthorized, and otherwise the unexpected status.
pub fn key_check_result(status: u16) -> (r: Result<bool, u16>)
    ensures
        200 <= status < 300 ==> r == Ok::<bool, u16>(true),
        status == 401 ==> r == Ok::<bool, u16>(false),
        !(200 <= status < 300) && status != 401 ==> r == Err::<bool, u16>(status),
{
    if 200 <= status && status < 300 {
        Ok(true)
    } else if status == 401 {
        Ok(false)
    } else {
        Err(status)
    }
}

/// A status that is a server error, and so worth retrying.
pub open spec fn is_server_error(status: u16) -> bool {
    status >= 500
}

pub open spec fn rate_limit_wait_spec(suggested: Option<u64>) -> u64 {
    let s = match suggested {
        Some(v) => v,
        None => DEFAULT_RATE_LIMIT_WAIT_SEC,
    };
    if s < MIN_RATE_LIMIT_WAIT_SEC {
        MIN_RATE_LIMIT_WAIT_SEC
    } else if s > MAX_RATE_LIMIT_WAIT_SEC {
        MAX_RATE_LIMIT_WAIT_SEC
    } else {
        s
    }
}

/// The wait after a rate-limited response: the server's suggestion, or the
/// default where it gave none, clamped to the bounds.
pub fn rate_limit_wait(suggested: Option<u64>) -> (r: u64)
    ensures
        r == rate_limit_wait_spec(suggested),
        MIN_RATE_LIMIT_WAIT_SEC <= r <= MAX_RATE_LIMIT_WAIT_SEC,
{
    let s = match suggested {
        Some(v) => v,
        None => DEFAULT_RATE_LIMIT_WAIT_SEC,
    };
    if s < MIN_RATE_LIMIT_WAIT_SEC {
        MIN_RATE_LIMIT_WAIT_SEC
    } else if s > MAX_RATE_LIMIT_WAIT_SEC {
        MAX_RATE_LIMIT_WAIT_SEC
    } else {
        s
    }
}

/// `2^attempt` seconds, capped at the backoff ceiling.
pub open spec fn backoff_spec(attempt: u32) -> u64 {
    if attempt >= 4 {
        MAX_BACKOFF_SEC
    } else {
        pow2(attempt as nat) as u64
    }
}

/// The backoff before the retry that follows failed attempt `attempt`
/// (counted from zero).
pub fn backoff_secs(attempt: u32) -> (r: u64)
    ensures
        r == backoff_spec(attempt),
        1 <= r <= MAX_BACKOFF_SEC,
{
    proof {
        lemma2_to64();
    }
    if attempt == 0 {
        1
    } else if attempt == 1 {
        2
    } else if attempt == 2 {
        4
    } else if attempt == 3 {
        8
    } else {
        MAX_BACKOFF_SEC
    }
}

/// The retry counters of one call to a remote service.
#[derive(Debug, Clone, Copy, PartialEq, Eq, Structural)]
pub struct RetryState {
    /// The general retry budget the call started with.
    pub retry_count: u32,
    /// General retries not yet used.
    pub retries_left: u32,
    /// Rate-limited responses seen so far.
    pub rate_limit_retries: u32,
}

impl RetryState {
    pub open spec fn wf(&self) -> bool {
        self.retries_left <= self.retry_count && self.rate_limit_retries
            <= MAX_RATE_LIMIT_RETRIES
    }

    /// Counters for a call with the given retry budget.
    pub fn new(retry_count: u32) -> (r: RetryState)
        ensures
            r.wf(),
            r == (RetryState { retry_count, retries_left: retry_count, rate_limit_retries: 0 }),
    {
        RetryState { retry_count, retries_left: retry_count, rate_limit_retries: 0 }
    }

    /// The counters after `failure`, and the wait before the next attempt, or
    /// `None` where the call gives up.
    pub open spec fn after(self, failure: Failure) -> (RetryState, Option<u64>) {
        match failure {
            Failure::RateLimited(wait) => if self.rate_limit_retries + 1 > MAX_RATE_LIMIT_RETRIES {
                (self, None)
            } else {
                (
                    RetryState { rate_limit_retries: (self.rate_limit_retries + 1) as u32, ..self },
                    Some(wait),
                )
            },
            Failure::Terminal => (self, None),
            Failure::Transient => if self.retries_left == 0 {
                (self, None)
            } else {
                (
                    RetryState { retries_left: (self.retries_left - 1) as u32, ..self },
                    Some(backoff_spec((self.retry_count - self.retries_left) as u32)),
                )
            },
        }
    }

    /// Records `failure` and decides: wait this many seconds and try again,
    /// or give up (`None`).
    pub fn on_failure(&mut self, failure: Failure) -> (r: Option<u64>)
        requires
            old(self).wf(),
        ensures
            final(self).wf(),
            (*final(self), r) == old(self).after(failure),
    {
        match failure {
            Failure::RateLimited(wait) => {
                if self.rate_limit_retries + 1 > MAX_RATE_LIMIT_RETRIES {
                    None
                } else {
                    self.rate_limit_retries = self.rate_limit_retries + 1;
                    Some(wait)
                }
            },
            Failure::Terminal => None,
            Failure::Transient => {
                if self.retries_left == 0 {
                    None
                } else {
                    let attempt = self.retry_count - self.retries_left;
                    self.retries_left = self.retries_left - 1;
                    Some(backoff_secs(attempt))
                }
            },
        }
    }
}

/// Rate-limited responses are retried at most the fixed cap of times, and a
/// call gives up on the next one, whatever the general budget holds.
pub proof fn lemma_rate_limit_cap(s: RetryState, wait: u64)
    requires
        s.wf(),
    ensures
        s.after(Failure::RateLimited(wait)).1 is Some <==> s.rate_limit_retries
            < MAX_RATE_LIMIT_RETRIES,
        s.after(Failure::RateLimited(wait)).0.retries_left == s.retries_left,
{
}

/// A transient failure is retried while the general budget lasts, after a
/// backoff of `2^attempt` seconds capped at the ceiling.
pub proof fn lemma_transient_backoff(s: RetryState)
    requires
        s.wf(),
    ensures
        s.after(Failure::Transient).1 is Some <==> s.retries_left > 0,
        s.retries_left > 0 ==> s.after(Failure::Transient).1 == Some(
            backoff_spec((s.retry_count - s.retries_left) as u32),
        ),
        s.after(Failure::Transient).0.rate_limit_retries == s.rate_limit_retries,
{
}

/// A terminal failure is never retried.
pub proof fn lemma_terminal_gives_up(s: RetryState)
    ensures
        s.after(Failure::Terminal) == (s, None::<u64>),
{
}

} // verus!
