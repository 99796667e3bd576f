//! The retry/backoff governor for transiently failing remote calls.
//!
//! A governed call is attempted up to [`MAX_ATTEMPTS`] times. After a
//! rate-limited failure the caller sleeps an exponentially growing
//! delay and retries; after the last attempt the caller degrades to a
//! placeholder result instead of failing. Any other error propagates
//! immediately.

use vstd::prelude::*;
use crate::remote_errors::ErrorClass;

verus! {

/// How many attempts a governed call gets when it is rate-limited.
pub const MAX_ATTEMPTS: u32 = 3;

/// Backoff delay before the first retry, in seconds.
pub const BASE_DELAY_SECS: u64 = 2;

/// The delay slept after the given number of earlier failures:
/// `BASE_DELAY_SECS` doubled once per failure (2s, 4s, 8s, ...).
pub open spec fn backoff_delay(failures: nat) -> nat
    decreases failures,
{
    if failures == 0 {
        BASE_DELAY_SECS as nat
    } else {
        2 * backoff_delay((failures - 1) as nat)
    }
}

/// What the caller of a governed remote call must do after a failure.
#[derive(Debug, Clone, Copy, PartialEq, Eq, Structural)]
pub enum RetryDecision {
    /// Sleep for the given seconds, then attempt the call again.
    Retry { delay_secs: u64 },
    /// Sleep once more, then give up on the call and use the degraded
    /// placeholder result; retry exhaustion is not an error.
    Degrade { delay_secs: u64 },
    /// The error is not transient: propagate it without retrying.
    Propagate,
}

/// Transient-failure state of one governed remote call; discarded when
/// the call resolves.
pub struct RetryState {
    failures: u32,
    next_delay_secs: u64,
}

impl RetryState {
    /// Rate-limited failures recorded so far.
    pub closed spec fn failures_seen(&self) -> nat {
        self.failures as nat
    }

    /// The delay the next rate-limited failure will be answered with.
    pub closed spec fn pending_delay(&self) -> nat {
        self.next_delay_secs as nat
    }

    /// Internal consistency: the pending delay is the backoff schedule
    /// at the current failure count, and the count never passes the cap.
    pub closed spec fn wf(&self) -> bool {
        &&& self.failures <= MAX_ATTEMPTS
        &&& self.next_delay_secs == backoff_delay(self.failures as nat)
    }

    /// Fresh state for one governed call.
    pub fn new() -> (s: RetryState)
        ensures
            s.wf(),
            s.failures_seen() == 0,
    {
        RetryState { failures: 0, next_delay_secs: BASE_DELAY_SECS }
    }

    /// Record a failed attempt of the governed call and decide what the
    /// caller does next: retry after a doubling delay while attempts
    /// remain, degrade once they are exhausted, and propagate any error
    /// that is not a rate limit.
    pub fn on_failure(&mut self, class: ErrorClass) -> (d: RetryDecision)
        requires
            old(self).wf(),
            old(self).failures_seen() < MAX_ATTEMPTS,
        ensures
            final(self).wf(),
            class != ErrorClass::RateLimited ==> d == RetryDecision::Propagate && *final(self)
                == *old(self),
            class == ErrorClass::RateLimited ==> {
                &&& final(self).failures_seen() == old(self).failures_seen() + 1
                &&& if old(self).failures_seen() + 1 < MAX_ATTEMPTS {
                    d == (RetryDecision::Retry {
                        delay_secs: backoff_delay(old(self).failures_seen()) as u64,
                    })
                } else {
                    d == (RetryDecision::Degrade {
                        delay_secs: backoff_delay(old(self).failures_seen()) as u64,
                    })
                }
            },
    {
        match class {
            ErrorClass::RateLimited => {
                let delay = self.next_delay_secs;
                proof {
                    reveal_with_fuel(backoff_delay, 5);
                    assert(backoff_delay(old(self).failures as nat) <= 8) by {
                        assert(old(self).failures as nat <= 2);
                    }
                }
                self.failures = self.failures + 1;
                self.next_delay_secs = delay * 2;
                if self.failures < MAX_ATTEMPTS {
                    RetryDecision::Retry { delay_secs: delay }
                } else {
                    RetryDecision::Degrade { delay_secs: delay }
                }
            },
            _ => RetryDecision::Propagate,
        }
    }
}

/// The concrete backoff schedule: with the default base delay the three
/// governed attempts are answered with 2s, 4s and 8s.
pub proof fn lemma_backoff_schedule()
    ensures
        backoff_delay(0) == 2,
        backoff_delay(1) == 4,
        backoff_delay(2) == 8,
{
    reveal_with_fuel(backoff_delay, 4);
}

} // verus!
