//! Retry policy.
//!
//! ```text
//! Attempt 1 -> 1s -> Attempt 2 -> 3s -> Attempt 3
//! ```
//! Never retried: 400, 401, 403, 404. Retried: 408, 429, 5xx, timeouts,
//! connection errors.

use crate::time::Span;
use vstd::prelude::*;

verus! {

/// What went wrong below HTTP, as far as the policy depends on it.
#[derive(Debug)]
pub struct TransportError {
    /// What the transport says of it.
    pub message: String,
    pub timeout: bool,
    pub connect: bool,
    pub body: bool,
    pub decode: bool,
}

impl TransportError {
    /// Whether the error is a passing one.
    pub open spec fn transient(self) -> bool {
        self.timeout || self.connect || self.body || self.decode
    }
}

/// Seconds to wait before an attempt.
pub open spec fn backoff_secs(attempt: int) -> int {
    if attempt <= 1 {
        0
    } else if attempt == 2 {
        1
    } else {
        3
    }
}

/// How long to wait before an attempt, the first one being number 1: the first
/// goes out at once, the second after one second, later ones after three.
pub fn backoff_for_attempt(attempt: u32) -> (r: Span)
    ensures
        r.nanos == backoff_secs(attempt as int) * 1_000_000_000,
{
    match attempt {
        0 | 1 => Span::from_secs(0),
        2 => Span::from_secs(1),
        _ => Span::from_secs(3),
    }
}

/// The HTTP status codes worth another attempt.
pub open spec fn retryable_status(status: int) -> bool {
    status == 408 || status == 429 || 500 <= status <= 599
}

/// Whether an HTTP status code is worth another attempt.
pub fn should_retry(status: u16) -> (r: bool)
    ensures
        r == retryable_status(status as int),
{
    status == 408 || status == 429 || 500 <= status && status <= 599
}

/// Whether a transport error is a passing one.
pub fn should_retry_error(error: &TransportError) -> (r: bool)
    ensures
        r == error.transient(),
{
    error.timeout || error.connect || error.body || error.decode
}

/// Client errors other than 408 and 429 are final, and so is every status
/// below the error range.
pub proof fn law_other_statuses_are_final(status: int)
    requires
        status < 500,
        status != 408,
        status != 429,
    ensures
        !retryable_status(status),
{
}

/// The waits never get shorter from one attempt to the next.
pub proof fn law_backoff_never_shrinks(earlier: int, later: int)
    requires
        earlier <= later,
    ensures
        backoff_secs(earlier) <= backoff_secs(later),
{
}

/// A request that timed out, one that there were too many of, and one that met
/// an error of the server are worth another attempt.
pub proof fn law_server_errors_are_retried(status: int)
    ensures
        retryable_status(408),
        retryable_status(429),
        500 <= status < 600 ==> retryable_status(status),
        status >= 600 ==> !retryable_status(status),
{
}

/// Every passing error is worth another attempt, whatever else it is, and no
/// other one.
pub proof fn law_passing_errors_are_retried(error: TransportError)
    ensures
        error.timeout ==> error.transient(),
        error.connect ==> error.transient(),
        error.body ==> error.transient(),
        error.decode ==> error.transient(),
        !error.timeout && !error.connect && !error.body && !error.decode ==> !error.transient(),
{
}

/// The first attempt goes out at once, the second after one second, and every
/// later one after three.
pub proof fn law_waits_by_attempt(attempt: int)
    ensures
        attempt <= 1 ==> backoff_secs(attempt) == 0,
        attempt == 2 ==> backoff_secs(attempt) == 1,
        attempt >= 3 ==> backoff_secs(attempt) == 3,
{
}

} // verus!
