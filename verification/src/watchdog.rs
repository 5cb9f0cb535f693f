//! A runaway-execution guard. A watchdog is a one-shot timer over a
//! host-supplied clock in microseconds; the runtime keeps two of them, a hard
//! timer bounding a single step's execution time and a soft timer bounding
//! the frame budget.

use vstd::prelude::*;

verus! {

/// The default hard timeout: the absolute maximum single-step execution
/// time, in microseconds.
pub const HARD_TIMEOUT_USEC: u64 = 10_000_000;

/// The default soft timeout: one frame's budget at sixty frames per second,
/// in microseconds.
pub const SOFT_TIMEOUT_USEC: u64 = 16_666;

/// A one-shot timer. The clock is supplied by the host as a microsecond
/// counter; the watchdog never reads time itself.
#[derive(Clone, Copy, PartialEq, Eq, Structural, Debug)]
pub struct Watchdog {
    /// When the watched period began.
    pub started_at_usec: u64,
    /// How long the watched period may last.
    pub timeout_usec: u64,
    /// Whether the watchdog was tripped by hand, which counts as expiry
    /// regardless of the clock.
    pub tripped: bool,
}

/// Whether the watchdog counts as expired at the given instant.
pub open spec fn spec_expired(w: Watchdog, now_usec: u64) -> bool {
    w.tripped || now_usec >= w.started_at_usec + w.timeout_usec
}

impl Watchdog {
    /// A fresh watchdog with the given timeout, measuring from `now_usec`.
    pub open spec fn new_timeout_spec(timeout_usec: u64, now_usec: u64) -> Watchdog {
        Watchdog { started_at_usec: now_usec, timeout_usec, tripped: false }
    }

    /// A fresh watchdog with the given timeout, measuring from `now_usec`.
    pub fn new_timeout(timeout_usec: u64, now_usec: u64) -> (w: Watchdog)
        ensures
            w == (Watchdog { started_at_usec: now_usec, timeout_usec, tripped: false }),
    {
        Watchdog { started_at_usec: now_usec, timeout_usec, tripped: false }
    }

    /// Whether the watched period has elapsed at the given instant.
    pub fn check(&self, now_usec: u64) -> (r: bool)
        ensures
            r == spec_expired(*self, now_usec),
    {
        if self.tripped {
            true
        } else if now_usec >= self.started_at_usec {
            now_usec - self.started_at_usec >= self.timeout_usec
        } else {
            false
        }
    }

    /// Forces the watchdog into the expired state.
    pub fn trip(&mut self)
        ensures
            *final (self) == (Watchdog { tripped: true, ..*old(self) }),
            forall|now: u64| spec_expired(*final (self), now),
    {
        self.tripped = true;
    }

    /// Restarts the watched period from the given instant and clears a trip.
    pub fn reset(&mut self, now_usec: u64)
        ensures
            *final (self) == (Watchdog {
                started_at_usec: now_usec,
                timeout_usec: old(self).timeout_usec,
                tripped: false,
            }),
    {
        self.started_at_usec = now_usec;
        self.tripped = false;
    }
}

} // verus!
