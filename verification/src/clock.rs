//! Time, counted in ticks of the system clock.
use embassy_time::Duration;
use vstd::prelude::*;

verus! {

/// `embassy_time::Duration::from_millis`, read out with `as_ticks`: so many
/// milliseconds, in clock ticks. The clock is built to tick a million times a second
/// (feature `tick-hz-1_000_000`), so there is nothing to round.
#[verifier::external_body]
pub(crate) fn ticks_from_millis(millis: u64) -> (ticks: u64)
    requires
        millis * 1000 <= u64::MAX,
    ensures
        ticks == millis * 1000,
{
    Duration::from_millis(millis).as_ticks()
}

} // verus!
