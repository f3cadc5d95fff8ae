//! The wall clock.
use vstd::prelude::*;

verus! {

/// Nanoseconds in a second.
pub const NANOS_PER_SEC: u64 = 1_000_000_000;

/// Calls `std::time::SystemTime::elapsed` on the Unix epoch, which reads the
/// clock and gives its distance from the epoch: `Ok` after the epoch, `Err`
/// before it, here in nanoseconds. Nothing is promised of a clock reading.
#[verifier::external_body]
fn distance_from_epoch() -> (distance: Result<i128, i128>) {
    match std::time::UNIX_EPOCH.elapsed() {
        Ok(after) => Ok(after.as_nanos() as i128),
        Err(before) => Err(before.duration().as_nanos() as i128),
    }
}

/// The time that a distance from the Unix epoch stands for, in nanoseconds since
/// the epoch: negative before it, and at most what an `i128` holds.
pub open spec fn time_at(distance: Result<i128, i128>) -> int {
    match distance {
        Ok(after) => after as int,
        Err(before) => if before == i128::MIN {
            i128::MAX as int
        } else {
            -before
        },
    }
}

/// The time that a distance from the Unix epoch stands for.
pub fn time_from_distance(distance: Result<i128, i128>) -> (now: i128)
    ensures
        now == time_at(distance),
{
    match distance {
        Ok(after) => after,
        Err(before) => match 0i128.checked_sub(before) {
            Some(now) => now,
            None => i128::MAX,
        },
    }
}

/// The present, as nanoseconds since the Unix epoch. Nothing is promised of a
/// clock reading.
pub(crate) fn unix_nanos_now() -> (now: i128) {
    let distance = distance_from_epoch();
    time_from_distance(distance)
}

/// The whole seconds that have passed since `earlier`; none when `earlier` lies
/// ahead.
pub open spec fn seconds_since(now: i128, earlier: i128) -> Option<int> {
    if now >= earlier {
        Some((now - earlier) / (NANOS_PER_SEC as int))
    } else {
        None
    }
}

/// Tells whether `earlier` lies back, and by less than `secs` whole seconds.
pub fn within_seconds(now: i128, earlier: i128, secs: u64) -> (r: bool)
    ensures
        r == match seconds_since(now, earlier) {
            Some(s) => s < secs,
            None => false,
        },
{
    if now < earlier {
        return false;
    }
    assert(NANOS_PER_SEC as i128 == 1_000_000_000);
    let span: i128 = secs as i128 * NANOS_PER_SEC as i128;
    match earlier.checked_add(span) {
        Some(end) => now < end,
        None => true,
    }
}

} // verus!
