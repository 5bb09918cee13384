//! Wall-clock time as nanoseconds relative to the Unix epoch.
use vstd::prelude::*;

verus! {

/// The largest count of nanoseconds that a `std::time::Duration` holds:
/// `u64::MAX` seconds and 999_999_999 nanoseconds.
pub open spec fn max_duration_nanos() -> int {
    u64::MAX * 1_000_000_000 + 999_999_999
}

/// std's wall-clock time, carried through unopened.
#[verifier::external_type_specification]
#[verifier::external_body]
pub struct ExSystemTime(std::time::SystemTime);

/// Reads the wall clock with std's `SystemTime::now()`; nothing is stated of
/// the reading.
#[verifier::external_body]
fn system_now() -> std::time::SystemTime {
    std::time::SystemTime::now()
}

/// The distance of `t` from `UNIX_EPOCH` by std's `duration_since`: `Ok`
/// where `t` is not before the epoch, `Err` with the distance (the error's
/// `duration()`) where it is. Which of the two, and the distance, is not
/// stated.
#[verifier::external_body]
fn since_epoch(t: &std::time::SystemTime) -> std::result::Result<std::time::Duration, std::time::Duration> {
    match t.duration_since(std::time::UNIX_EPOCH) {
        Ok(d) => Ok(d),
        Err(e) => Err(e.duration()),
    }
}

/// The whole nanoseconds of a duration, by std's `Duration::as_nanos`; a
/// `Duration` holds at most `u64::MAX` seconds and 999_999_999 nanoseconds.
#[verifier::external_body]
fn duration_nanos(d: &std::time::Duration) -> (r: u128)
    ensures
        r <= max_duration_nanos(),
{
    d.as_nanos()
}

/// The current time, in nanoseconds since the Unix epoch (negative before
/// it). Any reading of the clock is possible.
pub fn current_time() -> (r: i128)
    ensures
        -max_duration_nanos() <= r <= max_duration_nanos(),
{
    let now = system_now();
    match since_epoch(&now) {
        Ok(d) => duration_nanos(&d) as i128,
        Err(d) => -(duration_nanos(&d) as i128),
    }
}

} // verus!
