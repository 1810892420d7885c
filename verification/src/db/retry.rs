//! Retry policy: exponential backoff guarded by a circuit breaker.
//!
//! The retry loop alternates outside work (sleeping, running the database
//! operation) with decisions; the decisions live here as [`RetryRun`], and
//! the caller performs each step it asks for.
use vstd::prelude::*;

use crate::db::pool::{admits, after_admission, after_failure, after_success, CircuitBreaker};
use crate::text::{chars_of, contains_chars, contains_seq, lowercase, to_lowercase};

verus! {

/// Retries after the first attempt.
pub const RETRY_MAX_ATTEMPTS: u32 = 3;

/// Delay before the first retry, in milliseconds; doubled for each further retry.
pub const RETRY_BASE_DELAY_MS: u64 = 100;

/// `2^n`.
pub open spec fn pow2(n: nat) -> nat
    decreases n,
{
    if n == 0 { 1 } else { 2 * pow2((n - 1) as nat) }
}

/// The exponential backoff before attempt number `attempt` (counted from 0):
/// nothing before the first attempt, `base * 2^(attempt - 1)` before a retry.
pub open spec fn spec_backoff_ms(base_ms: nat, attempt: nat) -> nat {
    if attempt == 0 { 0 } else { base_ms * pow2((attempt - 1) as nat) }
}

/// The backoff delay in milliseconds before attempt number `attempt`.
pub fn backoff_delay_ms(base_ms: u64, attempt: u32) -> (d: u64)
    requires
        attempt <= 32,
        spec_backoff_ms(base_ms as nat, attempt as nat) <= u64::MAX,
    ensures
        d == spec_backoff_ms(base_ms as nat, attempt as nat),
{
    if attempt == 0 {
        return 0;
    }
    let mut d: u64 = base_ms;
    let mut k: u32 = 1;
    assert(pow2(0) == 1);
    assert(base_ms * pow2(0) == base_ms);
    while k < attempt
        invariant
            1 <= k <= attempt,
            attempt <= 32,
            d == base_ms * pow2((k - 1) as nat),
            base_ms * pow2((attempt - 1) as nat) <= u64::MAX,
        decreases attempt - k,
    {
        proof {
            lemma_pow2_mono(k as nat, (attempt - 1) as nat);
            assert(pow2(k as nat) == 2 * pow2((k - 1) as nat));
            assert(base_ms * pow2(k as nat) == 2 * (base_ms * pow2((k - 1) as nat))) by (nonlinear_arith)
                requires pow2(k as nat) == 2 * pow2((k - 1) as nat);
            assert(base_ms * pow2(k as nat) <= base_ms * pow2((attempt - 1) as nat)) by (nonlinear_arith)
                requires pow2(k as nat) <= pow2((attempt - 1) as nat);
        }
        d = d * 2;
        k = k + 1;
    }
    d
}

proof fn lemma_pow2_mono(a: nat, b: nat)
    requires
        a <= b,
    ensures
        pow2(a) <= pow2(b),
        pow2(a) >= 1,
    decreases b,
{
    if b > a {
        lemma_pow2_mono(a, (b - 1) as nat);
    } else if a > 0 {
        lemma_pow2_mono((a - 1) as nat, (a - 1) as nat);
    }
}

/// Backoff of the retry loop: 100, 200 and 400 milliseconds before the
/// three retries.
pub proof fn lemma_retry_delays()
    ensures
        spec_backoff_ms(RETRY_BASE_DELAY_MS as nat, 0) == 0,
        spec_backoff_ms(RETRY_BASE_DELAY_MS as nat, 1) == 100,
        spec_backoff_ms(RETRY_BASE_DELAY_MS as nat, 2) == 200,
        spec_backoff_ms(RETRY_BASE_DELAY_MS as nat, 3) == 400,
{
    reveal_with_fuel(pow2, 3);
}

/// An error message names a condition that is likely to pass: its lowercase
/// form mentions a lock, a timeout, a connection, or a retry.
pub open spec fn spec_is_transient(message: Seq<char>) -> bool {
    let l = lowercase(message);
    contains_seq(l, "lock"@) || contains_seq(l, "timeout"@) || contains_seq(l, "connection"@)
        || contains_seq(l, "retry"@)
}

/// Whether a database error message describes a transient failure worth
/// retrying.
pub fn is_transient_error(message: &str) -> (b: bool)
    ensures
        b == spec_is_transient(message@),
{
    let lower = to_lowercase(message);
    let l = chars_of(lower.as_str());
    contains_chars(&l, &chars_of("lock")) || contains_chars(&l, &chars_of("timeout"))
        || contains_chars(&l, &chars_of("connection")) || contains_chars(&l, &chars_of("retry"))
}

/// What to do before an attempt.
#[derive(Debug, Clone, Copy, PartialEq, Eq, Structural)]
pub enum AttemptStart {
    /// The breaker is open: fail with "circuit breaker open — rejecting request".
    Rejected,
    /// Sleep this many milliseconds, then run the operation.
    Proceed { delay_ms: u64 },
}

/// What to do after an attempt.
#[derive(Debug, Clone, Copy, PartialEq, Eq, Structural)]
pub enum AttemptEnd {
    /// The operation succeeded: return its value.
    Succeeded,
    /// The operation failed for good: return its error.
    GaveUp,
    /// The operation failed transiently: start the next attempt.
    Retry,
}

/// One run of the retry loop: up to `RETRY_MAX_ATTEMPTS + 1` attempts.
#[derive(Debug)]
pub struct RetryRun {
    attempt: u32,
}

impl RetryRun {
    /// The number of the current attempt, counted from 0.
    pub closed spec fn spec_attempt(&self) -> u32 {
        self.attempt
    }

    /// A new run, at its first attempt.
    pub fn new() -> (r: Self)
        ensures
            r.spec_attempt() == 0,
    {
        RetryRun { attempt: 0 }
    }

    /// The number of the current attempt, counted from 0.
    pub fn attempt(&self) -> (a: u32)
        ensures
            a == self.spec_attempt(),
    {
        self.attempt
    }

    /// Before the current attempt: ask the breaker, then tell the caller
    /// whether to proceed and how long to back off first.
    pub fn start_attempt(&self, breaker: &mut CircuitBreaker) -> (s: AttemptStart)
        requires
            self.spec_attempt() <= RETRY_MAX_ATTEMPTS,
        ensures
            exists|cooled: bool|
                {
                    &&& final(breaker)@ == after_admission(old(breaker)@, cooled)
                    &&& if admits(old(breaker)@, cooled) {
                        s == AttemptStart::Proceed {
                            delay_ms: spec_backoff_ms(
                                RETRY_BASE_DELAY_MS as nat,
                                self.spec_attempt() as nat,
                            ) as u64,
                        }
                    } else {
                        s == AttemptStart::Rejected
                    }
                },
    {
        if !breaker.allow_request() {
            return AttemptStart::Rejected;
        }
        proof {
            reveal_with_fuel(pow2, 4);
            assert(spec_backoff_ms(RETRY_BASE_DELAY_MS as nat, self.attempt as nat) <= 400);
        }
        AttemptStart::Proceed { delay_ms: backoff_delay_ms(RETRY_BASE_DELAY_MS, self.attempt) }
    }

    /// After the current attempt: `failure` is `None` when the operation
    /// succeeded and `Some(transient)` when it failed. Records the outcome in
    /// the breaker and decides whether to retry.
    pub fn finish_attempt(&mut self, breaker: &mut CircuitBreaker, failure: Option<bool>) -> (e:
        AttemptEnd)
        requires
            old(self).spec_attempt() <= RETRY_MAX_ATTEMPTS,
        ensures
            final(self).spec_attempt() <= RETRY_MAX_ATTEMPTS,
            match failure {
                None => e == AttemptEnd::Succeeded && final(breaker)@ == after_success(old(breaker)@)
                    && final(self).spec_attempt() == old(self).spec_attempt(),
                Some(transient) => {
                    &&& final(breaker)@ == after_failure(old(breaker)@)
                    &&& if !transient || old(self).spec_attempt() == RETRY_MAX_ATTEMPTS {
                        e == AttemptEnd::GaveUp && final(self).spec_attempt() == old(
                            self,
                        ).spec_attempt()
                    } else {
                        e == AttemptEnd::Retry && final(self).spec_attempt() == old(
                            self,
                        ).spec_attempt() + 1
                    }
                },
            },
    {
        match failure {
            None => {
                breaker.record_success();
                AttemptEnd::Succeeded
            },
            Some(transient) => {
                breaker.record_failure();
                if !transient || self.attempt == RETRY_MAX_ATTEMPTS {
                    AttemptEnd::GaveUp
                } else {
                    self.attempt = self.attempt + 1;
                    AttemptEnd::Retry
                }
            },
        }
    }
}

/// Reset a breaker shared by many operations to the closed state.
pub fn reset_shared_breaker(shared: &mut CircuitBreaker)
    ensures
        final(shared)@ == (crate::db::pool::BreakerState::Closed, 0u64),
{
    shared.reset();
}

} // verus!
