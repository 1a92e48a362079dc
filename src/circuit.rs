//! The circuit breaker that suppresses remote fetches after repeated failures.
use vstd::prelude::*;

verus! {

/// How long an open breaker keeps refusing fetches after the last failure, in
/// milliseconds.
pub const COOL_DOWN_MS: i64 = 10_000;

/// Consecutive failures of the remote fetch, and whether fetches are suppressed.
#[derive(Clone, Copy, Debug, PartialEq, Eq, Structural)]
pub struct CircuitState {
    pub is_open: bool,
    pub failure_count: u32,
    /// Time of the last failure, in milliseconds since the Unix epoch.
    pub last_failure: Option<i64>,
}

/// `n + 1`, held at `u32::MAX`.
pub open spec fn bumped(n: u32) -> u32 {
    if n < u32::MAX {
        (n + 1) as u32
    } else {
        n
    }
}

impl CircuitState {
    /// The breaker is open and its last failure lies less than the cool-down
    /// before `now`.
    pub open spec fn cooling(self, now: int) -> bool {
        self.is_open && match self.last_failure {
            Some(t) => now - t < COOL_DOWN_MS,
            None => false,
        }
    }

    /// The state after asking at `now` whether a fetch may start, and the answer.
    pub open spec fn allow_spec(self, now: int) -> (CircuitState, bool) {
        if !self.is_open {
            (self, true)
        } else if self.cooling(now) {
            (self, false)
        } else {
            (CircuitState { is_open: false, failure_count: 0, ..self }, true)
        }
    }

    /// The state after a successful fetch.
    pub open spec fn success_spec(self) -> CircuitState {
        CircuitState { is_open: false, failure_count: 0, ..self }
    }

    /// The state after a failed fetch at `now`, with `threshold` failures
    /// opening the breaker.
    pub open spec fn failure_spec(self, now: i64, threshold: u32) -> CircuitState {
        let count = bumped(self.failure_count);
        CircuitState {
            is_open: self.is_open || count >= threshold,
            failure_count: count,
            last_failure: Some(now),
        }
    }

    /// An open breaker has seen at least `threshold` consecutive failures.
    pub open spec fn consistent(self, threshold: u32) -> bool {
        self.is_open ==> self.failure_count >= threshold
    }

    /// A closed breaker with no failures.
    pub open spec fn new_spec() -> CircuitState {
        CircuitState { is_open: false, failure_count: 0, last_failure: None }
    }

    /// A closed breaker with no failures.
    pub fn new() -> (r: CircuitState)
        ensures
            r == CircuitState::new_spec(),
    {
        CircuitState { is_open: false, failure_count: 0, last_failure: None }
    }

    /// Decides at `now` whether a fetch may start. An open breaker whose
    /// cool-down has passed closes, with its count reset, and lets it start.
    pub fn allow_attempt(&mut self, now: i64) -> (proceed: bool)
        ensures
            (*final(self), proceed) == old(self).allow_spec(now as int),
    {
        if !self.is_open {
            return true;
        }
        if let Some(t) = self.last_failure {
            if (now as i128) - (t as i128) < COOL_DOWN_MS as i128 {
                return false;
            }
        }
        self.is_open = false;
        self.failure_count = 0;
        true
    }

    /// Records a successful fetch: the count is reset and the breaker closed.
    pub fn record_success(&mut self)
        ensures
            *final(self) == old(self).success_spec(),
    {
        self.is_open = false;
        self.failure_count = 0;
    }

    /// Records a failed fetch at `now`; returns whether the breaker is open.
    pub fn record_failure(&mut self, now: i64, threshold: u32) -> (open: bool)
        ensures
            *final(self) == old(self).failure_spec(now, threshold),
            open == final(self).is_open,
    {
        if self.failure_count < u32::MAX {
            self.failure_count = self.failure_count + 1;
        }
        self.last_failure = Some(now);
        if self.failure_count >= threshold {
            self.is_open = true;
        }
        self.is_open
    }
}

/// The breaker after failures at each of `times`, in order.
pub open spec fn after_failures(c: CircuitState, times: Seq<i64>, threshold: u32) -> CircuitState
    decreases times.len(),
{
    if times.len() == 0 {
        c
    } else {
        after_failures(c, times.drop_last(), threshold).failure_spec(times.last(), threshold)
    }
}

/// Every transition keeps an open breaker at or above its threshold.
pub proof fn transitions_keep_consistency(c: CircuitState, now: i64, threshold: u32)
    requires
        c.consistent(threshold),
    ensures
        c.allow_spec(now as int).0.consistent(threshold),
        c.success_spec().consistent(threshold),
        c.failure_spec(now, threshold).consistent(threshold),
{
}

/// From a closed breaker with no failures, `k` consecutive failures leave the
/// count at `k`, and the breaker opens exactly when `k` reaches the threshold.
pub proof fn failures_count_up(times: Seq<i64>, threshold: u32)
    requires
        times.len() <= u32::MAX,
    ensures
        after_failures(CircuitState { is_open: false, failure_count: 0, last_failure: None }, times, threshold).failure_count
            == times.len(),
        after_failures(CircuitState { is_open: false, failure_count: 0, last_failure: None }, times, threshold).is_open
            == (times.len() >= threshold && times.len() > 0),
    decreases times.len(),
{
    if times.len() > 0 {
        failures_count_up(times.drop_last(), threshold);
    }
}

/// With a threshold of `threshold` failures: that many consecutive failures
/// from a closed breaker open it; within the cool-down after the last one no
/// fetch may start and nothing changes; once the cool-down has passed, one
/// fetch may start and the breaker is closed again with its count reset.
pub proof fn breaker_trips_and_heals(times: Seq<i64>, threshold: u32, early: i64, late: i64)
    requires
        threshold >= 1,
        times.len() == threshold,
        times.last() <= early,
        early - times.last() < COOL_DOWN_MS,
        late - times.last() >= COOL_DOWN_MS,
    ensures
        ({
            let tripped = after_failures(
                CircuitState { is_open: false, failure_count: 0, last_failure: None },
                times,
                threshold,
            );
            &&& tripped.is_open
            &&& tripped.allow_spec(early as int) == (tripped, false)
            &&& tripped.allow_spec(late as int).1
            &&& !tripped.allow_spec(late as int).0.is_open
            &&& tripped.allow_spec(late as int).0.failure_count == 0
        }),
{
    failures_count_up(times, threshold);
    let fresh = CircuitState { is_open: false, failure_count: 0, last_failure: None };
    assert(after_failures(fresh, times, threshold).last_failure == Some(times.last()));
}

} // verus!
