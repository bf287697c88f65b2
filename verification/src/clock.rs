//! Readings of the system clocks. Their values depend on when they are
//! taken, so nothing is promised of them.

use vstd::prelude::*;
use std::time::{Duration, Instant};

verus! {

/// `std::time::Instant`, a monotonic clock reading.
#[verifier::external_type_specification]
#[verifier::external_body]
pub struct ExInstant(std::time::Instant);

/// The time elapsed since `start` (`Instant::elapsed`, std).
#[verifier::external_body]
fn elapsed_since(start: &Instant) -> Duration {
    start.elapsed()
}

/// The time since the Unix epoch, or `None` when the system clock is set
/// before it (`SystemTime::elapsed` on `UNIX_EPOCH`, std).
#[verifier::external_body]
fn since_unix_epoch() -> Option<Duration> {
    std::time::UNIX_EPOCH.elapsed().ok()
}

/// The whole nanoseconds of `d` (`Duration::as_nanos`, std).
#[verifier::external_body]
fn duration_nanos(d: &Duration) -> u128 {
    d.as_nanos()
}

/// Nanoseconds elapsed since `start`, truncated to 64 bits.
pub fn elapsed_ns(start: &Instant) -> u64 {
    let d = elapsed_since(start);
    duration_nanos(&d) as u64
}

/// The timestamp of a clock reading: the low 64 bits of the nanoseconds
/// since the Unix epoch, or 0 for a clock set before the epoch (`None`).
pub fn timestamp_ns_from(since_epoch_ns: Option<u128>) -> (t: u64)
    ensures
        t == match since_epoch_ns {
            Some(n) => n as u64,
            None => 0u64,
        },
{
    match since_epoch_ns {
        Some(n) => n as u64,
        None => 0,
    }
}

/// Nanoseconds since the Unix epoch (truncated to 64 bits), or 0 when the
/// system clock is set before the epoch. The value is the clock's, so nothing
/// is promised of it; `timestamp_ns_from` states what is done with it.
pub fn unix_timestamp_ns() -> u64 {
    match since_unix_epoch() {
        Some(d) => timestamp_ns_from(Some(duration_nanos(&d))),
        None => timestamp_ns_from(None),
    }
}

} // verus!
