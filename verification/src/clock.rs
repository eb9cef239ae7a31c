use vstd::prelude::*;
use std::time::{Duration, Instant};

verus! {

#[verifier::external_type_specification]
#[verifier::external_body]
pub struct ExInstant(std::time::Instant);

/// Reads the monotonic clock through `std::time::Instant::now`.
/// Nothing is stated of the instant it returns: it depends on the time of the call.
#[verifier::external_body]
pub(crate) fn instant_now() -> Instant {
    Instant::now()
}

/// What `std::time::Instant::duration_since` returns for `later` and `earlier`.
pub uninterp spec fn spec_duration_since(later: Instant, earlier: Instant) -> Duration;

/// What `std::time::Duration::as_micros` returns for `d`.
pub uninterp spec fn spec_as_micros(d: Duration) -> u128;

/// `std::time::Instant::duration_since`: the time from `earlier` to `later`,
/// zero when `earlier` is the later one (it does not panic). The contract
/// claims only that the result depends on the two instants alone.
#[verifier::external_body]
pub(crate) fn duration_since(later: &Instant, earlier: &Instant) -> (d: Duration)
    ensures
        d == spec_duration_since(*later, *earlier),
{
    later.duration_since(*earlier)
}

/// `std::time::Duration::as_micros`: the whole microseconds of `d`. The
/// contract claims only that the number depends on `d` alone.
#[verifier::external_body]
pub(crate) fn duration_as_micros(d: &Duration) -> (m: u128)
    ensures
        m == spec_as_micros(*d),
{
    d.as_micros()
}

/// A count of microseconds as a game time, held at `u64::MAX` beyond it.
pub open spec fn game_time(micros: u128) -> u64 {
    if micros > u64::MAX as u128 {
        u64::MAX
    } else {
        micros as u64
    }
}

} // verus!
