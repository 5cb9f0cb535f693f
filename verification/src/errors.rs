//! The runtime's failure taxonomy. Construction and lock failures abort the
//! calling operation; scheduler faults and watchdog timeouts are scoped to a
//! single logical thread and are logged, never silently dropped. Cancelling
//! an already-terminal thread is a no-op, not an error.

use vstd::prelude::*;

verus! {

/// A failure surfaced by the runtime core.
#[derive(Clone, Copy, PartialEq, Eq, Structural, Debug)]
pub enum CoreError {
    /// Two-phase construction was abandoned before the payload was committed;
    /// the allocation is rolled back with no leaked reference.
    ConstructionFailure,
    /// The requested capability is not registered for the concrete type.
    CastFailure,
    /// The lock was poisoned by a prior panic while it was held; the failure
    /// is surfaced rather than silently ignored.
    LockFailure,
    /// A unit raised a runtime error; terminal for that logical thread only.
    SchedulerFault,
    /// The watchdog interrupted a runaway unit; handled like a scheduler
    /// fault, terminal for that logical thread only.
    WatchdogTimeout,
}

impl CoreError {
    /// A short diagnostic name for the failure.
    pub fn describe(&self) -> (r: &'static str)
        ensures
            (*self is ConstructionFailure) ==> r@ == "construction rolled back"@,
            (*self is CastFailure) ==> r@ == "capability not supported"@,
            (*self is LockFailure) ==> r@ == "lock poisoned"@,
            (*self is SchedulerFault) ==> r@ == "unit raised a runtime error"@,
            (*self is WatchdogTimeout) ==> r@ == "script exhausted maximum execution time"@,
    {
        match self {
            CoreError::ConstructionFailure => "construction rolled back",
            CoreError::CastFailure => "capability not supported",
            CoreError::LockFailure => "lock poisoned",
            CoreError::SchedulerFault => "unit raised a runtime error",
            CoreError::WatchdogTimeout => "script exhausted maximum execution time",
        }
    }
}

} // verus!
