//! Reading the clocks, and the spans of time between readings. What a clock
//! reads depends on the time at which it is read, so nothing is stated of
//! it; a span is named by its length in milliseconds.
use vstd::prelude::*;

verus! {

/// `std::time::Instant`, carried through the library as an opaque value.
#[verifier::external_type_specification]
#[verifier::external_body]
pub struct ExInstant(std::time::Instant);

/// `std::time::SystemTime`, carried through the library as an opaque value.
#[verifier::external_type_specification]
#[verifier::external_body]
pub struct ExSystemTime(std::time::SystemTime);

/// `Instant::now`: the current reading of the monotonic clock.
#[verifier::external_body]
pub fn instant_now() -> (t: std::time::Instant) {
    std::time::Instant::now()
}

/// `SystemTime::now`: the current wall-clock time.
#[verifier::external_body]
pub fn system_time_now() -> (t: std::time::SystemTime) {
    std::time::SystemTime::now()
}

/// `SystemTime::duration_since(UNIX_EPOCH)`: the time passed between the
/// Unix epoch and `t`, or `None` when `t` is earlier than the epoch.
/// Nothing is stated of the result: it depends on the clock reading `t`.
#[verifier::external_body]
pub fn since_unix_epoch(t: &std::time::SystemTime) -> (d: Option<std::time::Duration>) {
    t.duration_since(std::time::UNIX_EPOCH).ok()
}

/// `Instant::elapsed`: the time passed since `since`.
#[verifier::external_body]
pub fn elapsed_since(since: &std::time::Instant) -> (d: std::time::Duration) {
    since.elapsed()
}


/// `SystemTime` is `Copy`: its `clone` returns the same instant.
pub assume_specification[ <std::time::SystemTime as Clone>::clone ](t: &std::time::SystemTime) -> (r: std::time::SystemTime)
    ensures
        r == *t,
;

/// `Instant` is `Copy`: its `clone` returns the same instant.
pub assume_specification[ <std::time::Instant as Clone>::clone ](t: &std::time::Instant) -> (r: std::time::Instant)
    ensures
        r == *t,
;

/// `Duration` is `Copy`: its `clone` returns the same span.
pub assume_specification[ <std::time::Duration as Clone>::clone ](d: &std::time::Duration) -> (r: std::time::Duration)
    ensures
        r == *d,
;

/// The span of `ms` milliseconds: a name for what `Duration::from_millis`
/// gives.
pub uninterp spec fn duration_of_millis(ms: u64) -> std::time::Duration;

/// `Duration::from_millis`. Claimed of it: the span is a function of the
/// number of milliseconds alone, named by `duration_of_millis`, and it is
/// `ms` whole milliseconds long.
#[verifier::external_body]
pub fn duration_from_millis(ms: u64) -> (d: std::time::Duration)
    ensures
        d == duration_of_millis(ms),
        duration_ms(d) == ms,
{
    std::time::Duration::from_millis(ms)
}

/// The length of a span in whole milliseconds: a name for what
/// `Duration::as_millis` gives.
pub uninterp spec fn duration_ms(d: std::time::Duration) -> u128;

/// `Duration::as_millis`: the span's length in whole milliseconds (the
/// fraction of a millisecond is dropped). Claimed of it: the result is a
/// function of the span, named by `duration_ms`.
#[verifier::external_body]
pub fn duration_millis(d: &std::time::Duration) -> (ms: u128)
    ensures
        ms == duration_ms(*d),
{
    d.as_millis()
}

} // verus!
