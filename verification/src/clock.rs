//! Wall-clock and monotonic-clock readings.

use std::time::{Duration, Instant, SystemTime, SystemTimeError};
use vstd::prelude::*;

verus! {

/// A monotonic clock reading, carried through opaquely.
#[verifier::external_type_specification]
#[verifier::external_body]
pub struct ExInstant(Instant);

/// A wall-clock reading, carried through opaquely.
#[verifier::external_type_specification]
#[verifier::external_body]
pub struct ExSystemTime(SystemTime);

/// The error of a wall-clock reading that lies before the Unix epoch.
#[verifier::external_type_specification]
#[verifier::external_body]
pub struct ExSystemTimeError(SystemTimeError);

/// Calls `std::time::Instant::now`. Nothing is stated of the reading:
/// it comes from the machine's monotonic clock.
#[verifier::external_body]
pub(crate) fn instant_now() -> (r: Instant) {
    Instant::now()
}

/// Calls `std::time::Instant::elapsed`. Nothing is stated of the span:
/// it depends on the time at which the call is made.
#[verifier::external_body]
pub(crate) fn instant_elapsed(start: &Instant) -> (r: Duration) {
    start.elapsed()
}

/// Calls `std::time::SystemTime::now`. Nothing is stated of the reading:
/// it comes from the machine's wall clock.
#[verifier::external_body]
fn system_now() -> (r: SystemTime) {
    SystemTime::now()
}

/// Calls `std::time::SystemTime::duration_since` with `UNIX_EPOCH`.
/// Nothing is stated of the outcome: it depends on the reading handed in,
/// which Verus cannot look into.
#[verifier::external_body]
fn since_unix_epoch(t: &SystemTime) -> (r: Result<Duration, SystemTimeError>) {
    t.duration_since(std::time::UNIX_EPOCH)
}

/// Calls `std::time::Duration::as_millis`. The span is opaque to Verus, so
/// nothing is stated of the number of milliseconds.
#[verifier::external_body]
fn duration_millis(d: &Duration) -> (r: u128) {
    d.as_millis()
}

/// Narrows a millisecond count to 64 bits, keeping its low 64 bits, as `as u64` does.
pub fn millis_to_u64(ms: u128) -> (r: u64)
    ensures
        r == ms % 0x1_0000_0000_0000_0000,
{
    let r = ms as u64;
    assert(r == ms % 0x1_0000_0000_0000_0000) by (bit_vector)
        requires
            r == ms as u64,
    ;
    r
}

/// The millisecond stamp of a wall-clock reading: the low 64 bits of its
/// milliseconds since the Unix epoch, or 0 when the reading lies before the
/// epoch (`None`).
pub open spec fn epoch_stamp(since_epoch_ms: Option<u128>) -> u64 {
    match since_epoch_ms {
        Some(ms) => (ms % 0x1_0000_0000_0000_0000) as u64,
        None => 0,
    }
}

/// The millisecond stamp of a wall-clock reading, given its milliseconds
/// since the Unix epoch, or `None` when it lies before the epoch.
pub fn epoch_millis(since_epoch_ms: Option<u128>) -> (r: u64)
    ensures
        r == epoch_stamp(since_epoch_ms),
{
    match since_epoch_ms {
        Some(ms) => millis_to_u64(ms),
        None => 0,
    }
}

/// Milliseconds since the Unix epoch, taken from the wall clock; 0 when the
/// clock reads a time before the epoch.
pub fn now_ms() -> (r: u64) {
    let t = system_now();
    let since = match since_unix_epoch(&t) {
        Ok(d) => Some(duration_millis(&d)),
        Err(_) => None,
    };
    epoch_millis(since)
}

} // verus!
