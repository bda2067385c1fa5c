//! Pure time arithmetic: instants and durations are non-negative tick counts,
//! and every window computation saturates at the largest representable
//! instant instead of wrapping.

use vstd::prelude::*;

verus! {

/// Absolute instant at which a window of length `window` that began at
/// `updated_at` elapses, saturating at `u64::MAX`.
pub open spec fn deadline_of(updated_at: u64, window: u64) -> u64 {
    if updated_at + window > u64::MAX {
        u64::MAX
    } else {
        (updated_at + window) as u64
    }
}

/// Duration still to run at `now` before the window of length `window` that
/// began at `updated_at` elapses; zero once it has elapsed.
pub open spec fn remaining_at(updated_at: u64, window: u64, now: u64) -> u64 {
    if now >= deadline_of(updated_at, window) {
        0
    } else {
        (deadline_of(updated_at, window) - now) as u64
    }
}

/// Time left until a value last updated at `updated_at` becomes stale under
/// the window `window`, seen from `now`; zero means already stale.
pub fn time_until_stale(updated_at: u64, window: u64, now: u64) -> (r: u64)
    ensures
        r == remaining_at(updated_at, window, now),
        (r == 0) == (now >= deadline_of(updated_at, window)),
{
    let deadline = updated_at.saturating_add(window);
    if now >= deadline {
        0
    } else {
        deadline - now
    }
}

/// As [`time_until_stale`], for a timestamp and a window that may each be
/// absent: the remaining time is defined only when both are present.
pub fn maybe_time_until_stale(updated_at: Option<u64>, window: Option<u64>, now: u64) -> (r: Option<
    u64,
>)
    ensures
        r == match (updated_at, window) {
            (Some(u), Some(w)) => Some(remaining_at(u, w, now)),
            _ => None::<u64>,
        },
{
    match (updated_at, window) {
        (Some(u), Some(w)) => Some(time_until_stale(u, w, now)),
        _ => None,
    }
}

} // verus!
