//! Reading of the machine's monotonic clock, in milliseconds.

use vstd::prelude::*;

verus! {

#[verifier::external_type_specification]
#[verifier::external_body]
pub struct ExInstant(std::time::Instant);

/// `std::time::Instant::now`: some instant; nothing is claimed of it.
#[verifier::external_body]
fn instant_now() -> (r: std::time::Instant) {
    std::time::Instant::now()
}

/// `std::time::Instant::elapsed`: the time gone by since `origin`; nothing is
/// claimed of it.
#[verifier::external_body]
fn instant_elapsed(origin: &std::time::Instant) -> (r: std::time::Duration) {
    origin.elapsed()
}

/// `std::time::Duration::as_millis`: the whole milliseconds of `duration`;
/// nothing is claimed of them.
#[verifier::external_body]
fn duration_millis(duration: &std::time::Duration) -> (r: u128) {
    duration.as_millis()
}

/// A stopwatch started when it is made. Its readings are the time values that
/// the rest of the crate takes as `now`.
pub struct Clock {
    origin: std::time::Instant,
}

impl Clock {
    /// Starts a stopwatch.
    pub fn new() -> (r: Clock) {
        Clock { origin: instant_now() }
    }

    /// Milliseconds since the stopwatch was started, held at the largest value
    /// once they no longer fit.
    pub fn now_ms(&self) -> (r: u64) {
        let since: std::time::Duration = instant_elapsed(&self.origin);
        let millis: u128 = duration_millis(&since);
        time_value(millis)
    }
}

/// The time value that stands for a count of milliseconds: the count itself,
/// or the largest value once the count no longer fits.
pub open spec fn spec_time_value(millis: u128) -> u64 {
    if millis > u64::MAX {
        u64::MAX
    } else {
        millis as u64
    }
}

/// Turns a count of milliseconds into a time value.
pub fn time_value(millis: u128) -> (r: u64)
    ensures
        r == spec_time_value(millis),
{
    if millis > 0xffff_ffff_ffff_ffff {
        0xffff_ffff_ffff_ffff
    } else {
        millis as u64
    }
}

} // verus!
