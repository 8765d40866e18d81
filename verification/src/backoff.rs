//! The back-off policy that governs connect retries: exponential growth
//! with jitter, a per-delay cap, and an optional ceiling on total elapsed
//! time.

use crate::errors::InternalError;
use crate::settings::{spec_join_addresses, view_addresses, NatsClientSettings};
use vstd::prelude::*;

verus! {

/// The first delay, in milliseconds.
pub const INITIAL_INTERVAL_MS: u64 = 500;

/// No single delay ever exceeds this, in milliseconds.
pub const MAX_INTERVAL_MS: u64 = 60000;

/// Retry state: the current base interval and the optional ceiling on total
/// elapsed time.  Once the ceiling is exceeded the policy signals stop;
/// without a ceiling it never does.
#[derive(Clone, Debug)]
pub struct RetryPolicy {
    pub current_interval_ms: u64,
    pub max_elapsed_ms: Option<u64>,
}

/// A policy whose base interval stayed within the cap.
pub open spec fn wf_policy(p: RetryPolicy) -> bool {
    1 <= p.current_interval_ms <= MAX_INTERVAL_MS
}

/// Back-off policy for retry, seeded from the configured ceiling on total
/// retry time.
pub fn backoff(timeout: Option<u64>) -> (r: RetryPolicy)
    ensures
        r.max_elapsed_ms == timeout,
        r.current_interval_ms == INITIAL_INTERVAL_MS,
        wf_policy(r),
{
    RetryPolicy { current_interval_ms: INITIAL_INTERVAL_MS, max_elapsed_ms: timeout }
}

/// The next base interval: half again as long, capped.
pub open spec fn spec_grow(cur: u64) -> u64 {
    if cur + cur / 2 > MAX_INTERVAL_MS {
        MAX_INTERVAL_MS
    } else {
        (cur + cur / 2) as u64
    }
}

impl RetryPolicy {
    /// The delay before the next attempt, or `None` to stop retrying.
    ///
    /// Stops exactly when a ceiling is configured and the elapsed time has
    /// passed it, so a retry loop driven by this policy gives up no later
    /// than one delay after the ceiling; with no ceiling it never gives up.
    /// The returned delay is the current base interval pushed up or down by
    /// as much as half of it: the caller draws `jitter_ms` at most the base
    /// interval, and the delay is half the base plus the jitter.
    pub fn next_backoff(&mut self, elapsed_ms: u64, jitter_ms: u64) -> (r: Option<u64>)
        requires
            jitter_ms <= old(self).current_interval_ms,
            wf_policy(*old(self)),
        ensures
            wf_policy(*final(self)),
            final(self).max_elapsed_ms == old(self).max_elapsed_ms,
            (r is None) <==> (old(self).max_elapsed_ms is Some && elapsed_ms > old(
                self,
            ).max_elapsed_ms.unwrap()),
            r is None ==> *final(self) == *old(self),
            r is Some ==> r.unwrap() == old(self).current_interval_ms / 2 + jitter_ms,
            r is Some ==> final(self).current_interval_ms == spec_grow(old(self).current_interval_ms),
    {
        if self.max_reached(elapsed_ms) {
            return None;
        }
        let cur = self.current_interval_ms;
        let delay = cur / 2 + jitter_ms;
        let grown = cur + cur / 2;
        self.current_interval_ms = if grown > MAX_INTERVAL_MS {
            MAX_INTERVAL_MS
        } else {
            grown
        };
        Some(delay)
    }

    /// Whether the configured ceiling on total elapsed time has passed.
    fn max_reached(&self, elapsed_ms: u64) -> (r: bool)
        ensures
            r == (self.max_elapsed_ms is Some && elapsed_ms > self.max_elapsed_ms.unwrap()),
    {
        match self.max_elapsed_ms {
            Some(m) => elapsed_ms > m,
            None => false,
        }
    }
}

/// The error with which an exhausted connect retry loop gives up: the same
/// kind as a failed single attempt, carrying the joined address string.
pub fn connect_exhausted(settings: &NatsClientSettings) -> (r: InternalError)
    ensures
        match r {
            InternalError::NatsServerConnectionError { address } => address@
                == spec_join_addresses(view_addresses(settings.addresses@)),
            _ => false,
        },
{
    InternalError::NatsServerConnectionError { address: settings.joined_addresses() }
}

} // verus!
