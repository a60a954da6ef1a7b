//! Reading the system clock as plain numbers.

use std::time::{Duration, SystemTime, UNIX_EPOCH};
use vstd::prelude::*;

verus! {

/// Declares std's `SystemTime`, opaque here.
#[verifier::external_type_specification]
#[verifier::external_body]
pub struct ExSystemTime(SystemTime);

/// Reads the system clock (`SystemTime::now`). Trusted; nothing is
/// promised of the value.
#[verifier::external_body]
fn system_time_now() -> SystemTime {
    SystemTime::now()
}

/// How far a time lies from the Unix epoch (`SystemTime::duration_since`
/// with `UNIX_EPOCH`): `Ok` with whole seconds and subsecond nanoseconds
/// when it is not earlier, `Err` with the same for how far before the
/// epoch it lies. Trusted: the nanoseconds are below a billion, as std's
/// `Duration::subsec_nanos` documents; nothing else is promised.
#[verifier::external_body]
fn since_epoch(t: &SystemTime) -> (r: Result<(u64, u32), (u64, u32)>)
    ensures
        match r {
            Ok(d) => d.1 < 1_000_000_000,
            Err(d) => d.1 < 1_000_000_000,
        },
{
    match t.duration_since(UNIX_EPOCH) {
        Ok(d) => Ok((d.as_secs(), d.subsec_nanos())),
        Err(e) => Err((e.duration().as_secs(), e.duration().subsec_nanos())),
    }
}

/// Names the instant a `SystemTime` stands for: whole seconds since the
/// Unix epoch, rounded down (negative before it), and the nanoseconds past
/// that second.
pub uninterp spec fn system_time_instant(t: SystemTime) -> (int, u32);

/// The time `secs` seconds and `nanos` nanoseconds after the epoch
/// (`UNIX_EPOCH + Duration::new(secs, nanos)`). Trusted: it stands for
/// that instant. The seconds are bounded (required) so that the sum is
/// representable, where std would panic.
#[verifier::external_body]
pub(crate) fn epoch_plus(secs: u64, nanos: u32) -> (t: SystemTime)
    requires
        secs <= 253402300799,
        nanos < 1_000_000_000,
    ensures
        system_time_instant(t) == (secs as int, nanos),
{
    UNIX_EPOCH + Duration::new(secs, nanos)
}

/// The time `secs` seconds and `nanos` nanoseconds before the epoch
/// (`UNIX_EPOCH - Duration::new(secs, nanos)`). Trusted: it stands for
/// that instant. The seconds are bounded (required) so that the difference
/// is representable, where std would panic.
#[verifier::external_body]
pub(crate) fn epoch_minus(secs: u64, nanos: u32) -> (t: SystemTime)
    requires
        secs <= 377705116800,
        nanos < 1_000_000_000,
    ensures
        system_time_instant(t) == (if nanos == 0 {
            (-(secs as int), 0u32)
        } else {
            (-(secs as int) - 1, (1_000_000_000 - nanos) as u32)
        }),
{
    UNIX_EPOCH - Duration::new(secs, nanos)
}

/// Reads the clock as its distance from the Unix epoch: `Ok` at or after
/// the epoch, `Err` with how far before it (see `since_epoch`).
pub(crate) fn read_clock() -> (r: Result<(u64, u32), (u64, u32)>)
    ensures
        match r {
            Ok(d) => d.1 < 1_000_000_000,
            Err(d) => d.1 < 1_000_000_000,
        },
{
    let now = system_time_now();
    since_epoch(&now)
}

/// The current instant from the clock, as seconds since the epoch and
/// subsecond nanoseconds; a clock set before 1970 gives a negative number
/// of seconds, and a reading beyond what an `i64` of seconds holds is
/// taken as the nearest instant that fits.
pub(crate) fn current_instant() -> (t: (i64, u32))
    ensures
        t.1 < 1_000_000_000,
{
    let r = read_clock();
    match r {
        Ok(d) => if d.0 <= 9_223_372_036_854_775_807u64 {
            (d.0 as i64, d.1)
        } else {
            (i64::MAX, d.1)
        },
        Err(d) => if d.1 == 0 {
            if d.0 <= 9_223_372_036_854_775_807u64 {
                (-(d.0 as i64), 0)
            } else {
                (i64::MIN, 0)
            }
        } else if d.0 < 9_223_372_036_854_775_807u64 {
            (-(d.0 as i64) - 1, 1_000_000_000 - d.1)
        } else {
            (i64::MIN, 0)
        },
    }
}

} // verus!
