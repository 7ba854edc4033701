//! A breaker for calls to an outside service: after a run of failures it
//! opens, callers skip the service while it is open, and it closes again
//! once the cooldown has passed or a call succeeds.
use vstd::prelude::*;

verus! {

/// Consecutive failures that open the breaker.
pub const BREAKER_FAILURE_THRESHOLD: u32 = 5;

/// Seconds the breaker stays open.
pub const BREAKER_COOLDOWN_SECS: u64 = 30;

/// The breaker's state: the failures in a row, and the second (on the
/// caller's clock) until which it is open, 0 when it is closed.
pub struct ApiCircuitBreaker {
    pub consecutive_failures: u32,
    pub open_until_secs: u64,
}

/// (failures in a row, open until).
pub type BreakerState = (u32, u64);

impl ApiCircuitBreaker {
    pub open spec fn state(&self) -> BreakerState {
        (self.consecutive_failures, self.open_until_secs)
    }
}

/// Whether the breaker in state `s` holds calls back at second `now`.
pub open spec fn open_at(s: BreakerState, now: u64) -> bool {
    s.1 != 0 && now < s.1
}

/// The state after asking at `now`: a cooldown that has run out closes the
/// breaker and clears the count; otherwise nothing changes.
pub open spec fn after_check(s: BreakerState, now: u64) -> BreakerState {
    if s.1 != 0 && now >= s.1 {
        (0, 0)
    } else {
        s
    }
}

/// The state after a success: closed, with no failures counted.
pub open spec fn after_success(s: BreakerState) -> BreakerState {
    (0, 0)
}

/// Whether a failure at `now` can be recorded without overflow.
pub open spec fn failure_fits(s: BreakerState, now: u64) -> bool {
    &&& s.0 < u32::MAX
    &&& s.0 + 1 >= BREAKER_FAILURE_THRESHOLD ==> now + BREAKER_COOLDOWN_SECS <= u64::MAX
}

/// The state after a failure at `now`: one more failure counted, and, once
/// the count reaches the threshold, open for the cooldown from `now`.
pub open spec fn after_failure(s: BreakerState, now: u64) -> BreakerState {
    let count = s.0 + 1;
    if count >= BREAKER_FAILURE_THRESHOLD {
        (count as u32, (now + BREAKER_COOLDOWN_SECS) as u64)
    } else {
        (count as u32, s.1)
    }
}

impl ApiCircuitBreaker {
    /// A closed breaker with no failures counted.
    pub fn new() -> (r: ApiCircuitBreaker)
        ensures
            r.state() == (0u32, 0u64),
    {
        ApiCircuitBreaker { consecutive_failures: 0, open_until_secs: 0 }
    }

    /// Whether calls are held back at second `now`. Once the cooldown has
    /// run out, the breaker closes and forgets the failures.
    pub fn is_open(&mut self, now: u64) -> (r: bool)
        ensures
            r == open_at(old(self).state(), now),
            final(self).state() == after_check(old(self).state(), now),
    {
        let until = self.open_until_secs;
        if until == 0 {
            return false;
        }
        if now >= until {
            self.open_until_secs = 0;
            self.consecutive_failures = 0;
            false
        } else {
            true
        }
    }

    /// A call succeeded: the breaker closes and the count is cleared.
    pub fn record_success(&mut self)
        ensures
            final(self).state() == after_success(old(self).state()),
    {
        self.consecutive_failures = 0;
        self.open_until_secs = 0;
    }

    /// A call failed at second `now`; the failure that reaches the
    /// threshold opens the breaker for the cooldown.
    pub fn record_failure(&mut self, now: u64)
        requires
            failure_fits(old(self).state(), now),
        ensures
            final(self).state() == after_failure(old(self).state(), now),
    {
        let count = self.consecutive_failures + 1;
        self.consecutive_failures = count;
        if count >= BREAKER_FAILURE_THRESHOLD {
            self.open_until_secs = now + BREAKER_COOLDOWN_SECS;
        }
    }
}

/// The failure that reaches the threshold holds calls back for the whole
/// cooldown that follows it.
pub proof fn law_threshold_failure_opens(s: BreakerState, now: u64, later: u64)
    requires
        failure_fits(s, now),
        s.0 + 1 >= BREAKER_FAILURE_THRESHOLD,
        now <= later < now + BREAKER_COOLDOWN_SECS,
    ensures
        open_at(after_failure(s, now), later),
{
}

/// Failures below the threshold leave a closed breaker closed.
pub proof fn law_failures_below_threshold_stay_closed(s: BreakerState, now: u64, later: u64)
    requires
        failure_fits(s, now),
        s.1 == 0,
        s.0 + 1 < BREAKER_FAILURE_THRESHOLD,
    ensures
        !open_at(after_failure(s, now), later),
        after_failure(s, now).1 == 0,
{
}

/// After a success no call is held back, at any time.
pub proof fn law_success_closes(s: BreakerState, later: u64)
    ensures
        !open_at(after_success(s), later),
{
}

/// Once the cooldown has run out the breaker answers closed and starts
/// counting from zero again.
pub proof fn law_cooldown_expiry_resets(s: BreakerState, now: u64)
    requires
        s.1 != 0,
        now >= s.1,
    ensures
        !open_at(s, now),
        after_check(s, now) == (0u32, 0u64),
{
}

/// Asking never changes an open breaker, nor a closed one.
pub proof fn law_check_changes_only_expired(s: BreakerState, now: u64)
    requires
        !(s.1 != 0 && now >= s.1),
    ensures
        after_check(s, now) == s,
{
}

} // verus!
