//! The lock-coordination protocol for per-object access. Each managed object
//! is guarded by a coordination lock wrapping reader/writer semantics, and
//! every lock consults the process-wide exclusivity flag: in exclusive mode
//! the whole graph is driven from one context, so acquisition degenerates to
//! a no-op; in parallel mode acquisition performs true mutual exclusion, and
//! a caller refused a grant must retry rather than proceed. A lock poisoned
//! by a panic while held fails closed: every later request surfaces the
//! failure instead of silently ignoring it.
//!
//! The exclusivity flag may only be flipped when no coordination lock is
//! held anywhere. Here that is structural, not a convention: every grant in
//! parallel mode is counted on the flag, every release returns the count,
//! and the flip demands a count of zero — the barrier at the end of a
//! scheduling frame.

use vstd::prelude::*;

use crate::errors::CoreError;

verus! {

/// The process-wide exclusivity flag, shared by every coordination lock,
/// with the count of parallel-mode grants currently outstanding.
#[derive(Clone, Copy, PartialEq, Eq, Structural, Debug)]
pub struct GlobalLock {
    exclusive: bool,
    held: u64,
}

impl GlobalLock {
    /// Whether the runtime is in exclusive mode.
    pub closed spec fn exclusive(&self) -> bool {
        self.exclusive
    }

    /// How many parallel-mode grants are outstanding.
    pub closed spec fn held(&self) -> u64 {
        self.held
    }

    /// A fresh flag with no lock held.
    pub fn new(exclusive: bool) -> (g: GlobalLock)
        ensures
            g.exclusive() == exclusive,
            g.held() == 0,
    {
        GlobalLock { exclusive, held: 0 }
    }

    /// Whether the runtime is in exclusive mode.
    pub fn get_exclusive(&self) -> (r: bool)
        ensures
            r == self.exclusive(),
    {
        self.exclusive
    }

    /// How many parallel-mode grants are outstanding.
    pub fn get_held(&self) -> (r: u64)
        ensures
            r == self.held(),
    {
        self.held
    }

    /// Flips the exclusivity flag. Only possible at a barrier: no
    /// coordination lock may be held anywhere in the system.
    pub fn set_exclusive(&mut self, mode: bool)
        requires
            old(self).held() == 0,
        ensures
            final (self).exclusive() == mode,
            final (self).held() == 0,
    {
        self.exclusive = mode;
    }
}

/// Two global-lock values with the same mode and the same outstanding count
/// are the same value.
pub proof fn lemma_global_lock_eq(a: GlobalLock, b: GlobalLock)
    requires
        a.exclusive() == b.exclusive(),
        a.held() == b.held(),
    ensures
        a == b,
{
}

/// The answer to an acquisition request in parallel mode: the lock was
/// granted, or the caller must wait and ask again.
#[derive(Clone, Copy, PartialEq, Eq, Structural, Debug)]
pub enum LockResponse {
    Granted,
    Blocked,
}

/// One object's coordination lock: how many readers hold it, whether a
/// writer holds it, and whether it was poisoned.
#[derive(Clone, Copy, PartialEq, Eq, Structural, Debug)]
pub struct CoordinationLock {
    /// How many readers hold the lock in parallel mode.
    pub readers: u64,
    /// Whether a writer holds the lock in parallel mode.
    pub writer: bool,
    /// Whether a panic occurred while the lock was held.
    pub poisoned: bool,
}

impl CoordinationLock {
    /// A well-formed lock never has readers and a writer at once.
    pub open spec fn wf(&self) -> bool {
        self.writer ==> self.readers == 0
    }

    /// A fresh, unheld, healthy lock.
    pub fn new() -> (l: CoordinationLock)
        ensures
            l == (CoordinationLock { readers: 0, writer: false, poisoned: false }),
            l.wf(),
    {
        CoordinationLock { readers: 0, writer: false, poisoned: false }
    }

    /// Requests shared access. A poisoned lock fails closed. In exclusive
    /// mode the request is granted without touching any count: the
    /// process-wide flag guarantees a single owning context. In parallel
    /// mode the request is granted and counted — on the lock and on the
    /// flag — unless a writer holds the lock, in which case the caller is
    /// told to wait.
    pub fn acquire_read(&mut self, glock: &mut GlobalLock) -> (r: Result<LockResponse, CoreError>)
        requires
            old(self).wf(),
            old(self).readers < u64::MAX,
            old(glock).held() < u64::MAX,
        ensures
            final (self).wf(),
            final (glock).exclusive() == old(glock).exclusive(),
            old(self).poisoned ==> r == Result::<LockResponse, CoreError>::Err(
                CoreError::LockFailure,
            ) && *final (self) == *old(self) && *final (glock) == *old(glock),
            !old(self).poisoned && old(glock).exclusive() ==> r == Result::<
                LockResponse,
                CoreError,
            >::Ok(LockResponse::Granted) && *final (self) == *old(self) && *final (glock) == *old(
                glock,
            ),
            !old(self).poisoned && !old(glock).exclusive() && !old(self).writer ==> r == Result::<
                LockResponse,
                CoreError,
            >::Ok(LockResponse::Granted) && *final (self) == (CoordinationLock {
                readers: (old(self).readers + 1) as u64,
                ..*old(self)
            }) && final (glock).held() == old(glock).held() + 1,
            !old(self).poisoned && !old(glock).exclusive() && old(self).writer ==> r == Result::<
                LockResponse,
                CoreError,
            >::Ok(LockResponse::Blocked) && *final (self) == *old(self) && *final (glock) == *old(
                glock,
            ),
    {
        if self.poisoned {
            Result::Err(CoreError::LockFailure)
        } else if glock.get_exclusive() {
            Result::Ok(LockResponse::Granted)
        } else if self.writer {
            Result::Ok(LockResponse::Blocked)
        } else {
            self.readers = self.readers + 1;
            glock.held = glock.held + 1;
            Result::Ok(LockResponse::Granted)
        }
    }

    /// Requests exclusive access. A poisoned lock fails closed; exclusive
    /// mode grants without touching any count; in parallel mode the request
    /// is granted, and counted, only while nobody holds the lock at all.
    pub fn acquire_write(&mut self, glock: &mut GlobalLock) -> (r: Result<LockResponse, CoreError>)
        requires
            old(self).wf(),
            old(glock).held() < u64::MAX,
        ensures
            final (self).wf(),
            final (glock).exclusive() == old(glock).exclusive(),
            old(self).poisoned ==> r == Result::<LockResponse, CoreError>::Err(
                CoreError::LockFailure,
            ) && *final (self) == *old(self) && *final (glock) == *old(glock),
            !old(self).poisoned && old(glock).exclusive() ==> r == Result::<
                LockResponse,
                CoreError,
            >::Ok(LockResponse::Granted) && *final (self) == *old(self) && *final (glock) == *old(
                glock,
            ),
            !old(self).poisoned && !old(glock).exclusive() && old(self).readers == 0 && !old(
                self,
            ).writer ==> r == Result::<LockResponse, CoreError>::Ok(LockResponse::Granted)
                && *final (self) == (CoordinationLock { writer: true, ..*old(self) }) && final (
            glock).held() == old(glock).held() + 1,
            !old(self).poisoned && !old(glock).exclusive() && (old(self).readers > 0 || old(
                self,
            ).writer) ==> r == Result::<LockResponse, CoreError>::Ok(LockResponse::Blocked)
                && *final (self) == *old(self) && *final (glock) == *old(glock),
    {
        if self.poisoned {
            Result::Err(CoreError::LockFailure)
        } else if glock.get_exclusive() {
            Result::Ok(LockResponse::Granted)
        } else if self.readers == 0 && !self.writer {
            self.writer = true;
            glock.held = glock.held + 1;
            Result::Ok(LockResponse::Granted)
        } else {
            Result::Ok(LockResponse::Blocked)
        }
    }

    /// Returns shared access taken in parallel mode. In exclusive mode
    /// acquisition touched nothing, so there is nothing to return.
    pub fn release_read(&mut self, glock: &mut GlobalLock)
        requires
            old(self).wf(),
            !old(glock).exclusive() ==> old(self).readers > 0 && old(glock).held() > 0,
        ensures
            final (self).wf(),
            final (glock).exclusive() == old(glock).exclusive(),
            old(glock).exclusive() ==> *final (self) == *old(self) && *final (glock) == *old(
                glock,
            ),
            !old(glock).exclusive() ==> *final (self) == (CoordinationLock {
                readers: (old(self).readers - 1) as u64,
                ..*old(self)
            }) && final (glock).held() == old(glock).held() - 1,
    {
        if !glock.get_exclusive() {
            self.readers = self.readers - 1;
            glock.held = glock.held - 1;
        }
    }

    /// Returns exclusive access taken in parallel mode.
    pub fn release_write(&mut self, glock: &mut GlobalLock)
        requires
            old(self).wf(),
            !old(glock).exclusive() ==> old(self).writer && old(glock).held() > 0,
        ensures
            final (self).wf(),
            final (glock).exclusive() == old(glock).exclusive(),
            old(glock).exclusive() ==> *final (self) == *old(self) && *final (glock) == *old(
                glock,
            ),
            !old(glock).exclusive() ==> *final (self) == (CoordinationLock {
                writer: false,
                ..*old(self)
            }) && final (glock).held() == old(glock).held() - 1,
    {
        if !glock.get_exclusive() {
            self.writer = false;
            glock.held = glock.held - 1;
        }
    }

    /// Marks the lock poisoned: a panic unwound while it was held. From now
    /// on every request fails closed with a lock failure.
    pub fn poison(&mut self)
        requires
            old(self).wf(),
        ensures
            final (self).wf(),
            *final (self) == (CoordinationLock { poisoned: true, ..*old(self) }),
    {
        self.poisoned = true;
    }

    /// Whether anybody holds the lock in parallel mode.
    pub fn is_held(&self) -> (r: bool)
        ensures
            r == (self.readers > 0 || self.writer),
    {
        self.readers > 0 || self.writer
    }
}

} // verus!
