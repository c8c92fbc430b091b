//! The clocks, as the library reads them.
use vstd::prelude::*;

verus! {

#[verifier::external_type_specification]
#[verifier::external_body]
pub struct ExInstant(std::time::Instant);

/// Milliseconds since the UNIX epoch according to the system clock, or 0 if
/// the clock reads earlier than the epoch. Reads `std::time::SystemTime::now`;
/// nothing is promised of the value, which depends on the machine's clock.
#[verifier::external_body]
pub fn unix_time_millis() -> (t: u64) {
    std::time::SystemTime::now()
        .duration_since(std::time::UNIX_EPOCH)
        .map(|d| d.as_millis() as u64)
        .unwrap_or(0)
}

/// The current reading of the monotonic clock, `std::time::Instant::now`.
/// Nothing is promised of the value.
#[verifier::external_body]
pub fn instant_now() -> (t: std::time::Instant) {
    std::time::Instant::now()
}

/// Nanoseconds elapsed since `t` on the monotonic clock
/// (`std::time::Instant::elapsed`, zero if `t` lies ahead). Nothing is
/// promised of the value, which depends on when it is read.
#[verifier::external_body]
pub fn elapsed_nanos(t: &std::time::Instant) -> (r: u128) {
    t.elapsed().as_nanos()
}

/// The nanoseconds from `earlier` to `now` on the monotonic clock, as
/// `std::time::Instant::duration_since` measures them (zero if `earlier` is
/// later): a function of the two readings alone.
pub uninterp spec fn nanos_from(earlier: std::time::Instant, now: std::time::Instant) -> u128;

/// Nanoseconds from `earlier` to `now` on the monotonic clock
/// (`std::time::Instant::duration_since`, zero if `earlier` is later). The
/// value is named by [`nanos_from`] of the two readings; no number is
/// promised, the readings being opaque.
#[verifier::external_body]
pub fn nanos_between(now: &std::time::Instant, earlier: &std::time::Instant) -> (r: u128)
    ensures
        r == nanos_from(*earlier, *now),
{
    now.duration_since(*earlier).as_nanos()
}

} // verus!
