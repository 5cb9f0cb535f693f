//! The runtime's root object: the process-wide exclusivity flag, the typed
//! flag store, the two watchdog timers, and one bookkeeping row per
//! interpreter state. Each interpreter state's scheduler is owned by the
//! thread driving that state; the root coordinates what is genuinely shared:
//! when the exclusivity flag may flip, which states are alive, and which
//! states have a watchdog interrupt pending for the host to install.

use vstd::prelude::*;

use crate::coordlock::GlobalLock;
use crate::flags::{
    spec_apply_table, spec_flag_default, spec_flag_index, spec_flag_kind, spec_is_default_store,
    FastFlag, FastFlagValue, FastFlags,
};
use crate::watchdog::{spec_expired, Watchdog, HARD_TIMEOUT_USEC, SOFT_TIMEOUT_USEC};

verus! {

/// The bookkeeping row of one interpreter state.
#[derive(Clone, Copy, PartialEq, Eq, Structural, Debug)]
pub struct StateRecord {
    /// Whether the state still exists; a sub-state dies with its actor.
    pub live: bool,
    /// Whether a watchdog interrupt should be installed on this state: the
    /// next interpreter safepoint must fail with a timeout error.
    pub interrupt_pending: bool,
    /// The actor object driving this state, if it is a sub-state.
    pub actor: Option<u64>,
}

/// The live sub-states from position `k` on, in creation order.
pub open spec fn spec_live_subs_from(states: Seq<StateRecord>, k: int) -> Seq<usize>
    decreases states.len() - k,
{
    if k < 0 || k >= states.len() {
        Seq::empty()
    } else if k != 0 && states[k].live {
        seq![k as usize] + spec_live_subs_from(states, k + 1)
    } else {
        spec_live_subs_from(states, k + 1)
    }
}

/// The runtime root.
#[derive(Debug)]
pub struct RblxVM {
    /// The process-wide exclusivity flag with its outstanding-grant count.
    pub global_lock: GlobalLock,
    states: Vec<StateRecord>,
    hard_wd: Watchdog,
    soft_wd: Watchdog,
    flags: FastFlags,
}

impl RblxVM {
    /// The exclusivity flag with its outstanding-grant count.
    pub closed spec fn global(&self) -> GlobalLock {
        self.global_lock
    }

    /// The bookkeeping rows, the main state first.
    pub closed spec fn states(&self) -> Seq<StateRecord> {
        self.states@
    }

    /// The hard watchdog: the absolute maximum single-step execution time.
    pub closed spec fn hard_wd(&self) -> Watchdog {
        self.hard_wd
    }

    /// The soft watchdog: the frame budget.
    pub closed spec fn soft_wd(&self) -> Watchdog {
        self.soft_wd
    }

    /// The flag store.
    pub closed spec fn spec_flags(&self) -> FastFlags {
        self.flags
    }

    /// A well-formed runtime has a live main state and a well-formed flag
    /// store.
    pub open spec fn wf(&self) -> bool {
        &&& self.states().len() >= 1
        &&& self.states()[0].live
        &&& self.spec_flags().wf()
    }

    /// A fresh runtime measuring both watchdogs from `now_usec`: exclusive
    /// mode on, one live main state with no interrupt pending, and the flag
    /// store holding its defaults overridden by the given table, first entry
    /// first.
    pub fn new(flags_table: Option<Vec<(FastFlag, FastFlagValue)>>, now_usec: u64) -> (vm: RblxVM)
        requires
            flags_table matches Some(t) ==> forall|i: int|
                0 <= i < t@.len() ==> (#[trigger] t@[i].1).kind() == spec_flag_kind(t@[i].0),
        ensures
            vm.wf(),
            vm.global().exclusive(),
            vm.global().held() == 0,
            vm.hard_wd() == Watchdog::new_timeout_spec(HARD_TIMEOUT_USEC, now_usec),
            vm.soft_wd() == Watchdog::new_timeout_spec(SOFT_TIMEOUT_USEC, now_usec),
            vm.states() == seq![
                StateRecord { live: true, interrupt_pending: false, actor: Option::None },
            ],
            match flags_table {
                Option::None => spec_is_default_store(vm.spec_flags().values()),
                Option::Some(t) => exists|d: Seq<FastFlagValue>|
                    spec_is_default_store(d) && vm.spec_flags().values() == #[trigger]
                    spec_apply_table(d, t@),
            },
    {
        let mut flags = FastFlags::new();
        let ghost d0 = flags.values();
        let ghost f0 = flags;
        proof {
            assert forall|f: FastFlag| spec_flag_default(f, #[trigger] d0[spec_flag_index(
                f,
            )]) by {
                assert(spec_flag_default(f, f0.value_of(f)));
            }
            assert(spec_is_default_store(d0));
        }
        if let Option::Some(table) = flags_table {
            flags.initialize_with_table(table);
        }
        let mut states: Vec<StateRecord> = Vec::new();
        states.push(StateRecord { live: true, interrupt_pending: false, actor: Option::None });
        let vm = RblxVM {
            global_lock: GlobalLock::new(true),
            states,
            hard_wd: Watchdog::new_timeout(HARD_TIMEOUT_USEC, now_usec),
            soft_wd: Watchdog::new_timeout(SOFT_TIMEOUT_USEC, now_usec),
            flags,
        };
        proof {
            assert(vm.states() =~= seq![
                StateRecord { live: true, interrupt_pending: false, actor: Option::None },
            ]);
        }
        vm
    }

    /// Whether the runtime is in exclusive mode. Always safe to read.
    pub fn get_global_lock_state(&self) -> (r: bool)
        ensures
            r == self.global().exclusive(),
    {
        self.global_lock.get_exclusive()
    }

    /// Flips the exclusivity flag. Changing it alters the behavior of every
    /// coordination lock, so it demands the barrier: no lock held anywhere.
    pub fn set_global_lock_state(&mut self, state: bool)
        requires
            old(self).wf(),
            old(self).global().held() == 0,
        ensures
            final (self).wf(),
            final (self).global().exclusive() == state,
            final (self).global().held() == 0,
            final (self).states() == old(self).states(),
            final (self).hard_wd() == old(self).hard_wd(),
            final (self).soft_wd() == old(self).soft_wd(),
            final (self).spec_flags() == old(self).spec_flags(),
    {
        self.global_lock.set_exclusive(state);
    }

    /// The flag store, for reading.
    pub fn flags(&self) -> (r: &FastFlags)
        ensures
            *r == self.spec_flags(),
    {
        &self.flags
    }

    /// Writes one flag. Flag writes race with everything that reads flags
    /// under exclusive mode, so they are only allowed in parallel mode.
    pub fn set_flag_value(&mut self, flag: FastFlag, v: FastFlagValue)
        requires
            old(self).wf(),
            !old(self).global().exclusive(),
            v.kind() == spec_flag_kind(flag),
        ensures
            final (self).wf(),
            final (self).spec_flags().values() == old(self).spec_flags().values().update(
                crate::flags::spec_flag_index(flag),
                v,
            ),
            final (self).states() == old(self).states(),
            final (self).hard_wd() == old(self).hard_wd(),
            final (self).soft_wd() == old(self).soft_wd(),
            final (self).global() == old(self).global(),
    {
        self.flags.set_value(flag, v);
    }

    /// How many interpreter states were ever created, the main state
    /// included.
    pub fn state_count(&self) -> (n: usize)
        ensures
            n == self.states().len(),
    {
        self.states.len()
    }

    /// Whether one state is still alive.
    pub fn state_live(&self, i: usize) -> (r: bool)
        requires
            i < self.states().len(),
        ensures
            r == self.states()[i as int].live,
    {
        self.states[i].live
    }

    /// Whether a watchdog interrupt is pending on one state: the host must
    /// install an interrupt that fails the next interpreter safepoint with
    /// a timeout error. Safe to consult from any thread driving that state.
    pub fn interrupt_pending(&self, i: usize) -> (r: bool)
        requires
            i < self.states().len(),
        ensures
            r == self.states()[i as int].interrupt_pending,
    {
        self.states[i].interrupt_pending
    }

    /// Creates a sub-state for the given actor and returns its index.
    pub fn create_sub_state(&mut self, actor: u64) -> (i: usize)
        requires
            old(self).wf(),
        ensures
            final (self).wf(),
            i == old(self).states().len(),
            final (self).states() == old(self).states().push(
                StateRecord { live: true, interrupt_pending: false, actor: Option::Some(actor) },
            ),
            final (self).hard_wd() == old(self).hard_wd(),
            final (self).soft_wd() == old(self).soft_wd(),
            final (self).spec_flags() == old(self).spec_flags(),
            final (self).global() == old(self).global(),
    {
        let i = self.states.len();
        self.states.push(
            StateRecord { live: true, interrupt_pending: false, actor: Option::Some(actor) },
        );
        i
    }

    /// Retires a sub-state whose actor has gone; the main state never
    /// retires.
    pub fn release_state(&mut self, i: usize)
        requires
            old(self).wf(),
            0 < i < old(self).states().len(),
        ensures
            final (self).wf(),
            final (self).states() == old(self).states().update(
                i as int,
                (StateRecord { live: false, ..old(self).states()[i as int] }),
            ),
            final (self).hard_wd() == old(self).hard_wd(),
            final (self).soft_wd() == old(self).soft_wd(),
            final (self).spec_flags() == old(self).spec_flags(),
            final (self).global() == old(self).global(),
    {
        let interrupt_pending = self.states[i].interrupt_pending;
        let actor = self.states[i].actor;
        self.states[i] = StateRecord { live: false, interrupt_pending, actor };
    }

    /// The indices of every state still alive: the live sub-states in
    /// creation order, then the main state.
    pub fn get_all_states(&self) -> (r: Vec<usize>)
        requires
            self.wf(),
        ensures
            r@ == spec_live_subs_from(self.states(), 0) + seq![0usize],
    {
        let ghost all = self.states();
        let n = self.states.len();
        let mut r: Vec<usize> = Vec::new();
        let mut k: usize = 0;
        proof {
            assert(r@ + spec_live_subs_from(all, 0) =~= spec_live_subs_from(all, 0));
        }
        while k < n
            invariant
                0 <= k <= n,
                n == all.len(),
                self.states() == all,
                r@ + spec_live_subs_from(all, k as int) == spec_live_subs_from(all, 0),
            decreases n - k,
        {
            if k != 0 && self.states[k].live {
                r.push(k);
            }
            k = k + 1;
        }
        proof {
            assert(r@ + spec_live_subs_from(all, n as int) =~= r@);
        }
        r.push(0);
        proof {
            assert(r@ =~= spec_live_subs_from(all, 0) + seq![0usize]);
        }
        r
    }

    /// Trips the hard watchdog and marks an interrupt pending on every live
    /// state, forcing each one's next interpreter safepoint to fail with a
    /// timeout error. Installing the real interrupts is the host's part and
    /// is safe from a different thread than the one executing.
    pub fn watchdog_trip(&mut self)
        requires
            old(self).wf(),
        ensures
            final (self).wf(),
            final (self).hard_wd() == (Watchdog { tripped: true, ..old(self).hard_wd() }),
            final (self).soft_wd() == old(self).soft_wd(),
            final (self).spec_flags() == old(self).spec_flags(),
            final (self).global() == old(self).global(),
            final (self).states().len() == old(self).states().len(),
            forall|i: int|
                0 <= i < old(self).states().len() ==> final (self).states()[i] == (StateRecord {
                    interrupt_pending: old(self).states()[i].live
                        || old(self).states()[i].interrupt_pending,
                    ..old(self).states()[i]
                }),
    {
        self.hard_wd.trip();
        let n = self.states.len();
        let ghost all = old(self).states();
        let mut k: usize = 0;
        while k < n
            invariant
                0 <= k <= n,
                n == all.len(),
                self.states().len() == n,
                forall|i: int|
                    0 <= i < k ==> self.states()[i] == (StateRecord {
                        interrupt_pending: all[i].live || all[i].interrupt_pending,
                        ..all[i]
                    }),
                forall|i: int| k <= i < n ==> self.states()[i] == all[i],
                self.hard_wd() == (Watchdog { tripped: true, ..old(self).hard_wd() }),
                self.soft_wd() == old(self).soft_wd(),
                self.spec_flags() == old(self).spec_flags(),
                self.global() == old(self).global(),
            decreases n - k,
        {
            if self.states[k].live {
                let actor = self.states[k].actor;
                self.states[k] = StateRecord { live: true, interrupt_pending: true, actor };
            }
            k = k + 1;
        }
    }

    /// Confirms a handled hard timeout and restarts both timers from
    /// `now_usec`: pending interrupts are removed from every state once the
    /// hard timer is confirmed elapsed, and both watchdogs begin a fresh
    /// period.
    pub fn watchdog_reset(&mut self, now_usec: u64)
        requires
            old(self).wf(),
        ensures
            final (self).wf(),
            final (self).hard_wd() == Watchdog::new_timeout_spec(
                old(self).hard_wd().timeout_usec,
                now_usec,
            ),
            final (self).soft_wd() == Watchdog::new_timeout_spec(
                old(self).soft_wd().timeout_usec,
                now_usec,
            ),
            final (self).spec_flags() == old(self).spec_flags(),
            final (self).global() == old(self).global(),
            final (self).states().len() == old(self).states().len(),
            forall|i: int|
                0 <= i < old(self).states().len() ==> final (self).states()[i] == (StateRecord {
                    interrupt_pending: if spec_expired(old(self).hard_wd(), now_usec) {
                        false
                    } else {
                        old(self).states()[i].interrupt_pending
                    },
                    ..old(self).states()[i]
                }),
    {
        let ghost all = old(self).states();
        if self.hard_wd.check(now_usec) {
            let n = self.states.len();
            let mut k: usize = 0;
            while k < n
                invariant
                    0 <= k <= n,
                    n == all.len(),
                    self.states().len() == n,
                    forall|i: int|
                        0 <= i < k ==> self.states()[i] == (StateRecord {
                            interrupt_pending: false,
                            ..all[i]
                        }),
                    forall|i: int| k <= i < n ==> self.states()[i] == all[i],
                    self.hard_wd == old(self).hard_wd(),
                    self.soft_wd == old(self).soft_wd(),
                    self.flags == old(self).spec_flags(),
                    self.global() == old(self).global(),
                decreases n - k,
            {
                let live = self.states[k].live;
                let actor = self.states[k].actor;
                self.states[k] = StateRecord { live, interrupt_pending: false, actor };
                k = k + 1;
            }
        }
        self.hard_wd.reset(now_usec);
        self.soft_wd.reset(now_usec);
        proof {
            assert forall|i: int|
                0 <= i < all.len() implies final (self).states()[i] == (StateRecord {
                interrupt_pending: if spec_expired(old(self).hard_wd(), now_usec) {
                    false
                } else {
                    all[i].interrupt_pending
                },
                ..all[i]
            }) by {
                if !spec_expired(old(self).hard_wd(), now_usec) {
                    assert(self.states()[i] == all[i]);
                }
            }
        }
    }

    /// One watchdog consultation: on a hard timeout the runtime is tripped —
    /// every live state gets an interrupt pending — and the returned flag
    /// reports whether the soft frame budget has elapsed, signaling the
    /// driver to yield control back to the host frame. A run that stays
    /// within the soft budget trips neither timer and changes nothing.
    pub fn watchdog_check(&mut self, now_usec: u64) -> (soft_elapsed: bool)
        requires
            old(self).wf(),
        ensures
            final (self).wf(),
            soft_elapsed == spec_expired(old(self).soft_wd(), now_usec),
            final (self).soft_wd() == old(self).soft_wd(),
            final (self).spec_flags() == old(self).spec_flags(),
            final (self).global() == old(self).global(),
            final (self).states().len() == old(self).states().len(),
            spec_expired(old(self).hard_wd(), now_usec) ==> final (self).hard_wd() == (Watchdog {
                tripped: true,
                ..old(self).hard_wd()
            }) && forall|i: int|
                0 <= i < old(self).states().len() ==> final (self).states()[i] == (StateRecord {
                    interrupt_pending: old(self).states()[i].live
                        || old(self).states()[i].interrupt_pending,
                    ..old(self).states()[i]
                }),
            !spec_expired(old(self).hard_wd(), now_usec) ==> *final (self) == *old(self),
    {
        if self.hard_wd.check(now_usec) {
            self.watchdog_trip();
        }
        self.soft_wd.check(now_usec)
    }
}

} // verus!
