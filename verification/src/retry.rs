//! The retry policy: how one tri-valued endpoint outcome becomes a step of
//! the retry loop. The same rules serve both endpoint calls; fetching
//! entries adds one rule, treating an empty payload as a transient miss.

use vstd::prelude::*;

use crate::codec::Entry;
use crate::endpoint::Response;

verus! {

/// One step of the retry loop: hand the payload out, sleep this many
/// milliseconds and call again, or call again at once.
#[derive(Clone, Debug)]
pub enum RetryStep<T> {
    /// The payload arrived.
    Done(T),
    /// Sleep, then retry: a rate limit's delay, or the configured timeout.
    Sleep(u64),
    /// Retry at once: an unhandled status other than 400.
    Again,
}

/// Turns one outcome into a step: data is handed out; a rate limit sleeps
/// for the delay the server asked, or for the configured timeout when it
/// named none; an unhandled 400 sleeps for the configured timeout; any
/// other unhandled status retries at once. Terminal errors never reach
/// this policy.
pub fn retry_decision<T>(response: Response<T>, timeout_ms: u64) -> (s: RetryStep<T>)
    ensures
        match response {
            Response::Data(x) => s matches RetryStep::Done(y) && y == x,
            Response::Limited(Some(d)) => s matches RetryStep::Sleep(m) && m == d,
            Response::Limited(None) => s matches RetryStep::Sleep(m) && m == timeout_ms,
            Response::Unhandled(code) => if code == 400 {
                s matches RetryStep::Sleep(m) && m == timeout_ms
            } else {
                s is Again
            },
        },
{
    match response {
        Response::Data(x) => RetryStep::Done(x),
        Response::Limited(Some(d)) => RetryStep::Sleep(d),
        Response::Limited(None) => RetryStep::Sleep(timeout_ms),
        Response::Unhandled(code) => {
            if code == 400 {
                RetryStep::Sleep(timeout_ms)
            } else {
                RetryStep::Again
            }
        }
    }
}

/// The policy for fetching entries: as `retry_decision`, except that an
/// empty entry sequence under a 200 is treated like an unhandled 400 —
/// sleep for the configured timeout, then retry.
pub fn entries_retry_decision(response: Response<Vec<Entry>>, timeout_ms: u64) -> (s: RetryStep<
    Vec<Entry>,
>)
    ensures
        match response {
            Response::Data(v) => if v@.len() == 0 {
                s matches RetryStep::Sleep(m) && m == timeout_ms
            } else {
                s matches RetryStep::Done(w) && w == v
            },
            Response::Limited(Some(d)) => s matches RetryStep::Sleep(m) && m == d,
            Response::Limited(None) => s matches RetryStep::Sleep(m) && m == timeout_ms,
            Response::Unhandled(code) => if code == 400 {
                s matches RetryStep::Sleep(m) && m == timeout_ms
            } else {
                s is Again
            },
        },
{
    match response {
        Response::Data(v) => {
            if v.len() == 0 {
                RetryStep::Sleep(timeout_ms)
            } else {
                RetryStep::Done(v)
            }
        }
        other => retry_decision(other, timeout_ms),
    }
}

} // verus!
