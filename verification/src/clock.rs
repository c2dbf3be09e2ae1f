//! The clocks and the random source that the engine reads.
//!
//! Nothing is promised of a reading of a clock: any moment and any span
//! of time may come back. Of a span of time only the whole microseconds it
//! holds are read. Of a random draw only its range is promised.

use rand::Rng;
use std::time::{Duration, Instant, SystemTime};
use vstd::prelude::*;

verus! {

/// `std::time::Instant`, a moment on the monotonic clock.
#[verifier::external_type_specification]
#[verifier::external_body]
pub struct ExInstant(Instant);

/// `std::time::SystemTime`, a moment on the wall clock.
#[verifier::external_type_specification]
#[verifier::external_body]
pub struct ExSystemTime(SystemTime);

/// `Instant::now`: the present moment on the monotonic clock.
pub assume_specification[ Instant::now ]() -> (now: Instant);

/// `Instant::elapsed`: the time that has passed since `start`.
pub assume_specification[ Instant::elapsed ](start: &Instant) -> (passed: Duration);

/// `SystemTime::now`: the present moment on the wall clock.
pub assume_specification[ SystemTime::now ]() -> (now: SystemTime);

/// The whole microseconds that a span of time holds.
pub uninterp spec fn span_micros(span: Duration) -> u128;

/// `Duration::as_micros`: the whole microseconds in `span`. They depend on
/// the span alone and go by the name [`span_micros`].
pub assume_specification[ Duration::as_micros ](span: &Duration) -> (micros: u128)
    ensures
        micros == span_micros(*span),
;

/// A number of microseconds as a 64-bit number: itself where it fits, the
/// largest 64-bit number where it does not.
pub open spec fn saturated(micros: u128) -> u64 {
    if micros > u64::MAX {
        u64::MAX
    } else {
        micros as u64
    }
}

/// The microseconds that are taken for the time since the Unix epoch: those
/// of the span from the epoch, and zero where there is none because the
/// wall clock is set before the epoch.
pub open spec fn epoch_micros(span: Option<Duration>) -> u64 {
    match span {
        Some(span) => saturated(span_micros(span)),
        None => 0,
    }
}

/// `SystemTime::duration_since` against the Unix epoch: the time from the
/// epoch to `moment`, or nothing for a moment before the epoch.
#[verifier::external_body]
fn since_epoch(moment: &SystemTime) -> (span: Option<Duration>) {
    moment.duration_since(SystemTime::UNIX_EPOCH).ok()
}

/// `Rng::gen_range` on the thread's generator: a number drawn from
/// `low..=high`, which must not be empty.
#[verifier::external_body]
pub(crate) fn random_between(low: i64, high: i64) -> (drawn: i64)
    requires
        low <= high,
    ensures
        low <= drawn <= high,
{
    rand::thread_rng().gen_range(low..=high)
}

/// The whole microseconds in `span`, at most `u64::MAX`.
pub(crate) fn micros_of(span: &Duration) -> (micros: u64)
    ensures
        micros == saturated(span_micros(*span)),
{
    let wide = span.as_micros();
    if wide > u64::MAX as u128 {
        u64::MAX
    } else {
        wide as u64
    }
}

/// The microseconds taken for a span from the Unix epoch, if there is
/// one: its whole microseconds, at most `u64::MAX`, and zero for none.
pub(crate) fn micros_since_epoch(span: Option<Duration>) -> (micros: u64)
    ensures
        micros == epoch_micros(span),
{
    match span {
        Some(span) => micros_of(&span),
        None => 0,
    }
}

/// The microseconds that have passed since `start`, at most `u64::MAX`, as
/// the monotonic clock shows them now.
pub(crate) fn elapsed_micros(start: &Instant) -> (micros: u64) {
    let passed = start.elapsed();
    micros_of(&passed)
}

/// The microseconds from the Unix epoch to now, as the wall clock shows
/// them; zero for a wall clock set before the epoch.
pub(crate) fn unix_micros() -> (micros: u64) {
    let now = SystemTime::now();
    micros_since_epoch(since_epoch(&now))
}

} // verus!
