//! Tick arithmetic of `embassy_time`, reached through small trusted wrappers.
//!
//! The firmware runs the nRF RTC1 time driver, so the global timebase ticks at
//! 32 768 Hz (`embassy_time`'s `tick-hz-32_768` feature, fixed in Cargo.toml).
use vstd::prelude::*;

verus! {

/// Ticks per second of the timebase this crate is built with.
pub const TICK_HZ: u64 = 32_768;

/// `embassy_time::Duration::from_millis(ms).as_ticks()` at 32 768 Hz:
/// `gcd(32768, 1000) == 8`, so the crate computes `ceil(ms * 4096 / 125)`.
pub open spec fn millis_to_ticks(ms: int) -> int {
    (ms * 4096 + 124) / 125
}

/// Calls `embassy_time::Duration::from_millis` and reads the tick count back with
/// `Duration::as_ticks`. The crate's source computes
/// `div_ceil(ms * (TICK_HZ / gcd(TICK_HZ, 1000)), 1000 / gcd(TICK_HZ, 1000))`
/// with `div_ceil(n, d) = (n + d - 1) / d`; the contract claims exactly that value
/// for the 32 768 Hz tick rate, on the inputs where the products do not overflow.
#[verifier::external_body]
pub(crate) fn ticks_from_millis(ms: u64) -> (ticks: u64)
    requires
        ms * 4096 + 124 <= u64::MAX,
    ensures
        ticks == millis_to_ticks(ms as int),
{
    embassy_time::Duration::from_millis(ms).as_ticks()
}

/// Calls `embassy_time::Instant::duration_since` on two instants made with
/// `Instant::from_ticks` and reads the result with `Duration::as_ticks`. The crate
/// computes `now - earlier` and panics when `earlier` is later than `now`; the
/// contract excludes that input and claims the difference.
#[verifier::external_body]
pub(crate) fn ticks_since(now: u64, earlier: u64) -> (ticks: u64)
    requires
        earlier <= now,
    ensures
        ticks == now - earlier,
{
    embassy_time::Instant::from_ticks(now).duration_since(embassy_time::Instant::from_ticks(earlier)).as_ticks()
}

} // verus!
