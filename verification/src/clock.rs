//! Elapsed time as a number.

use vstd::prelude::*;

use crate::deps::{monotonic_now, nanos_since};

verus! {

/// Nanoseconds per second.
pub const NANOS_PER_SEC: u128 = 1_000_000_000;

/// Nanoseconds per millisecond.
pub const NANOS_PER_MS: u128 = 1_000_000;

/// A monotonic clock that counts nanoseconds from its creation.
#[derive(Debug)]
pub struct Clock {
    start: std::time::Instant,
}

impl Clock {
    /// A clock that starts counting now.
    pub fn start() -> Clock {
        Clock { start: monotonic_now() }
    }

    /// The nanoseconds since the clock was started.
    pub fn now(&self) -> u128 {
        nanos_since(&self.start)
    }
}

/// `now + wait`, or the end of time if that cannot be represented.
pub open spec fn later(now: u128, wait: u128) -> u128 {
    if now + wait <= u128::MAX {
        (now + wait) as u128
    } else {
        u128::MAX
    }
}

/// The point in time `wait` after `now`.
pub fn deadline(now: u128, wait: u128) -> (t: u128)
    ensures
        t == later(now, wait),
{
    now.saturating_add(wait)
}

/// The time from `earlier` to `now`; 0 if `earlier` is not in the past.
pub open spec fn spec_since(now: u128, earlier: u128) -> u128 {
    if now >= earlier {
        (now - earlier) as u128
    } else {
        0
    }
}

/// The time from `earlier` to `now`; 0 if `earlier` is not in the past.
pub fn since(now: u128, earlier: u128) -> (d: u128)
    ensures
        d == spec_since(now, earlier),
{
    now.saturating_sub(earlier)
}

/// A deadline lies the given time ahead, or at the end of time; the time since something that is
/// past is how long ago it was.
pub proof fn law_times_add_up(now: u128, wait: u128)
    ensures
        now + wait <= u128::MAX ==> later(now, wait) == now + wait,
        now + wait > u128::MAX ==> later(now, wait) == u128::MAX,
        now + wait <= u128::MAX ==> spec_since(later(now, wait), now) == wait,
        now < wait ==> spec_since(now, wait) == 0,
        NANOS_PER_SEC == 1_000 * NANOS_PER_MS,
        NANOS_PER_MS == 1_000_000,
{
}

} // verus!
