//! Circuit breaker for database operations.
use vstd::prelude::*;

use crate::clock::{duration_millis, elapsed_since, instant_now};

verus! {

/// State of a [`CircuitBreaker`].
#[derive(Debug, Clone, Copy, PartialEq, Eq, Structural)]
pub enum BreakerState {
    Closed,
    Open,
    HalfOpen,
}

/// Consecutive failures that open a closed breaker.
pub const MAX_CONSECUTIVE_FAILURES: u64 = 3;

/// Milliseconds an open breaker waits before letting a probe request through.
pub const COOLDOWN_MS: u64 = 5000;

/// Circuit breaker state machine for database operations.
///
/// Protects the database from cascading failures by rejecting requests
/// when consecutive failures exceed a threshold.
#[derive(Debug)]
pub struct CircuitBreaker {
    state: BreakerState,
    failure_count: u64,
    opened_at: std::time::Instant,
}

/// The observable state of a breaker: its state and its failure count.
pub type BreakerView = (BreakerState, u64);

/// The breaker after a success is recorded.
pub open spec fn after_success(b: BreakerView) -> BreakerView {
    match b.0 {
        BreakerState::HalfOpen => (BreakerState::Closed, 0),
        BreakerState::Closed => (BreakerState::Closed, 0),
        BreakerState::Open => b,
    }
}

/// The failure count after one more failure (saturating at `u64::MAX`).
pub open spec fn bump(n: u64) -> u64 {
    if n == u64::MAX { n } else { (n + 1) as u64 }
}

/// The breaker after a failure is recorded.
pub open spec fn after_failure(b: BreakerView) -> BreakerView {
    let n = bump(b.1);
    match b.0 {
        BreakerState::Closed => if n >= MAX_CONSECUTIVE_FAILURES {
            (BreakerState::Open, n)
        } else {
            (BreakerState::Closed, n)
        },
        BreakerState::HalfOpen => (BreakerState::Open, n),
        BreakerState::Open => (BreakerState::Open, n),
    }
}

/// Whether a request is let through, given whether the cool-down since the
/// breaker opened has passed.
pub open spec fn admits(b: BreakerView, cooled_down: bool) -> bool {
    b.0 != BreakerState::Open || cooled_down
}

/// The breaker after a request is checked.
pub open spec fn after_admission(b: BreakerView, cooled_down: bool) -> BreakerView {
    if b.0 == BreakerState::Open && cooled_down {
        (BreakerState::HalfOpen, b.1)
    } else {
        b
    }
}

impl View for CircuitBreaker {
    type V = BreakerView;

    closed spec fn view(&self) -> BreakerView {
        (self.state, self.failure_count)
    }
}

impl CircuitBreaker {
    /// Create a new circuit breaker in the closed state.
    pub fn new() -> (b: Self)
        ensures
            b@ == (BreakerState::Closed, 0u64),
    {
        CircuitBreaker { state: BreakerState::Closed, failure_count: 0, opened_at: instant_now() }
    }

    /// The current state.
    pub fn state(&self) -> (s: BreakerState)
        ensures
            s == self@.0,
    {
        self.state
    }

    /// The current count of failures.
    pub fn failure_count(&self) -> (n: u64)
        ensures
            n == self@.1,
    {
        self.failure_count
    }

    /// Check whether a request is allowed through the circuit breaker.
    ///
    /// An open breaker lets a probe through (and turns half-open) once the
    /// cool-down since it opened has passed; before that it rejects.
    pub fn allow_request(&mut self) -> (b: bool)
        ensures
            exists|cooled: bool|
                b == admits(old(self)@, cooled) && final(self)@ == after_admission(old(self)@, cooled),
            old(self)@.0 != BreakerState::Open ==> b && final(self)@ == old(self)@,
    {
        let waited = elapsed_since(&self.opened_at);
        let cooled = duration_millis(&waited) >= COOLDOWN_MS as u128;
        self.allow_request_after(cooled)
    }

    /// The admission decision, given whether the cool-down has passed.
    pub fn allow_request_after(&mut self, cooled_down: bool) -> (b: bool)
        ensures
            b == admits(old(self)@, cooled_down),
            final(self)@ == after_admission(old(self)@, cooled_down),
    {
        match self.state {
            BreakerState::Closed | BreakerState::HalfOpen => true,
            BreakerState::Open => {
                if cooled_down {
                    self.state = BreakerState::HalfOpen;
                    true
                } else {
                    false
                }
            },
        }
    }

    /// Record a successful request, resetting the failure count.
    pub fn record_success(&mut self)
        ensures
            final(self)@ == after_success(old(self)@),
    {
        match self.state {
            BreakerState::HalfOpen => {
                self.state = BreakerState::Closed;
                self.failure_count = 0;
            },
            BreakerState::Closed => {
                self.failure_count = 0;
            },
            BreakerState::Open => {},
        }
    }

    /// Record a failed request, potentially opening the circuit. Opening
    /// restarts the cool-down.
    pub fn record_failure(&mut self)
        ensures
            final(self)@ == after_failure(old(self)@),
    {
        self.failure_count = self.failure_count.saturating_add(1);
        match self.state {
            BreakerState::Closed => {
                if self.failure_count >= MAX_CONSECUTIVE_FAILURES {
                    self.state = BreakerState::Open;
                    self.opened_at = instant_now();
                }
            },
            BreakerState::HalfOpen => {
                self.state = BreakerState::Open;
                self.opened_at = instant_now();
            },
            BreakerState::Open => {},
        }
    }

    /// Manually reset the circuit breaker to the closed state.
    pub fn reset(&mut self)
        ensures
            final(self)@ == (BreakerState::Closed, 0u64),
    {
        self.state = BreakerState::Closed;
        self.failure_count = 0;
    }
}

impl Default for CircuitBreaker {
    fn default() -> (b: Self)
        ensures
            b@ == (BreakerState::Closed, 0u64),
    {
        Self::new()
    }
}

/// Three consecutive failures open a closed breaker that had no failures,
/// and fewer do not.
pub proof fn lemma_three_failures_open()
    ensures
        after_failure((BreakerState::Closed, 0u64)).0 == BreakerState::Closed,
        after_failure(after_failure((BreakerState::Closed, 0u64))).0 == BreakerState::Closed,
        after_failure(after_failure(after_failure((BreakerState::Closed, 0u64)))).0
            == BreakerState::Open,
{
}

/// An open breaker rejects every request until its cool-down has passed,
/// and is unchanged by the check.
pub proof fn lemma_open_rejects_before_cooldown(b: BreakerView)
    requires
        b.0 == BreakerState::Open,
    ensures
        !admits(b, false),
        after_admission(b, false) == b,
        admits(b, true),
        after_admission(b, true).0 == BreakerState::HalfOpen,
{
}

/// A half-open breaker closes with a cleared count on the next success and
/// reopens on the next failure.
pub proof fn lemma_half_open_probe(b: BreakerView)
    requires
        b.0 == BreakerState::HalfOpen,
    ensures
        after_success(b) == (BreakerState::Closed, 0u64),
        after_failure(b).0 == BreakerState::Open,
{
}

/// A success on a closed breaker clears the failure count, so failures are
/// counted only while consecutive.
pub proof fn lemma_success_clears_count(b: BreakerView)
    requires
        b.0 == BreakerState::Closed,
    ensures
        after_success(b) == (BreakerState::Closed, 0u64),
{
}

} // verus!
