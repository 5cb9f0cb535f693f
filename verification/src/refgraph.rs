//! The reference-counted object graph. Nodes are allocated in two phases so
//! an object can know its own identity at construction time: a placeholder
//! slot is reserved and a weak self-handle handed out, the payload is built,
//! and the payload is then committed, yielding the first strong handle. Weak
//! handles never extend a lifetime: a payload is reachable exactly while its
//! strong count is positive, and when the count reaches zero the payload is
//! dropped, releasing in turn every reference it held — so cycles closed
//! through weak edges are collected.
//!
//! Handles are not copyable: a strong handle is duplicated only through
//! `clone_strong`, which counts it, and surrendered only through
//! `release_strong`, which may cascade. The counts answer only "is this
//! object still alive"; guarding concurrent payload access is the
//! coordination lock's job, not the counts'.

use vstd::prelude::*;

use crate::capability::CapabilityTable;
use crate::errors::CoreError;

verus! {

/// The payload of a live node: its immutable capability table, its component
/// data as plain values, and the references it holds into the graph.
#[derive(Debug)]
pub struct ManagedObject {
    /// The per-type capability table.
    pub table: CapabilityTable,
    /// Component data.
    pub fields: Vec<i64>,
    /// Slots this object keeps alive.
    pub strong_edges: Vec<usize>,
    /// Slots this object refers to without keeping them alive.
    pub weak_edges: Vec<usize>,
}

/// One slot of the graph.
#[derive(Debug)]
pub enum Slot {
    /// Never allocated, or fully released.
    Free,
    /// Mid-construction: reserved, with weak handles out but no payload yet.
    Reserved { weak: u64 },
    /// Alive: a committed payload with its reference counts.
    Live { strong: u64, weak: u64, object: ManagedObject },
    /// The payload is gone but weak handles remain; they can no longer be
    /// upgraded.
    Dead { weak: u64 },
}

/// A counted reference that keeps its object alive.
#[derive(Debug)]
pub struct StrongHandle {
    index: usize,
}

/// A counted reference that does not keep its object alive.
#[derive(Debug)]
pub struct WeakHandle {
    index: usize,
}

impl StrongHandle {
    /// The slot this handle points at.
    pub closed spec fn idx(&self) -> int {
        self.index as int
    }

    /// The slot this handle points at.
    pub fn index(&self) -> (i: usize)
        ensures
            i == self.idx(),
    {
        self.index
    }
}

impl WeakHandle {
    /// The slot this handle points at.
    pub closed spec fn idx(&self) -> int {
        self.index as int
    }

    /// The slot this handle points at.
    pub fn index(&self) -> (i: usize)
        ensures
            i == self.idx(),
    {
        self.index
    }
}

/// The strong count of a slot; only live slots have one.
pub open spec fn spec_strong_count(s: Slot) -> nat {
    match s {
        Slot::Live { strong, .. } => strong as nat,
        _ => 0,
    }
}

/// The weak count of a slot.
pub open spec fn spec_weak_count(s: Slot) -> nat {
    match s {
        Slot::Free => 0,
        Slot::Reserved { weak } => weak as nat,
        Slot::Live { weak, .. } => weak as nat,
        Slot::Dead { weak } => weak as nat,
    }
}

/// The reference-counted object graph.
#[derive(Debug)]
pub struct ObjectGraph {
    slots: Vec<Slot>,
}

/// Well-formedness of a slot sequence: every live payload is at least singly
/// referenced and all its edges point inside the graph.
pub open spec fn spec_slots_wf(slots: Seq<Slot>) -> bool {
    forall|i: int|
        0 <= i < slots.len() ==> match #[trigger] slots[i] {
            Slot::Live { strong, weak: _, object } => {
                &&& strong >= 1
                &&& forall|e: int|
                    0 <= e < object.strong_edges@.len() ==> (#[trigger] object.strong_edges@[e])
                        < slots.len()
                &&& forall|e: int|
                    0 <= e < object.weak_edges@.len() ==> (#[trigger] object.weak_edges@[e])
                        < slots.len()
            },
            _ => true,
        }
}

impl ObjectGraph {
    /// The graph's slots.
    pub closed spec fn slots(&self) -> Seq<Slot> {
        self.slots@
    }

    /// Well-formedness: every live payload is at least singly referenced and
    /// all its edges point inside the graph.
    pub open spec fn wf(&self) -> bool {
        spec_slots_wf(self.slots())
    }

    /// An empty graph.
    pub fn new() -> (g: ObjectGraph)
        ensures
            g.wf(),
            g.slots() == Seq::<Slot>::empty(),
    {
        ObjectGraph { slots: Vec::new() }
    }

    /// First phase of cyclic construction: reserves a placeholder slot and
    /// hands out a weak handle to the not-yet-complete object, which the
    /// initializer may store to enable self-reference. Upgrading it fails
    /// until the payload is committed.
    pub fn new_cyclic_begin(&mut self) -> (w: WeakHandle)
        requires
            old(self).wf(),
        ensures
            final (self).wf(),
            w.idx() == old(self).slots().len(),
            final (self).slots() == old(self).slots().push(Slot::Reserved { weak: 1 }),
    {
        let index = self.slots.len();
        self.slots.push(Slot::Reserved { weak: 1 });
        WeakHandle { index }
    }

    /// Second phase of cyclic construction: commits the payload atomically
    /// with respect to observers and yields the first strong handle. The
    /// references the payload holds are surrendered to the graph, becoming
    /// its outgoing edges; the weak count carries over, so the self-handle
    /// stays valid and can now be upgraded.
    pub fn new_cyclic_commit(
        &mut self,
        slot: usize,
        table: CapabilityTable,
        fields: Vec<i64>,
        strong_refs: Vec<StrongHandle>,
        weak_refs: Vec<WeakHandle>,
    ) -> (h: StrongHandle)
        requires
            old(self).wf(),
            slot < old(self).slots().len(),
            old(self).slots()[slot as int] is Reserved,
            forall|i: int|
                0 <= i < strong_refs@.len() ==> 0 <= (#[trigger] strong_refs@[i].idx()) < old(
                    self,
                ).slots().len(),
            forall|i: int|
                0 <= i < weak_refs@.len() ==> 0 <= (#[trigger] weak_refs@[i].idx()) < old(
                    self,
                ).slots().len(),
        ensures
            final (self).wf(),
            h.idx() == slot,
            final (self).slots().len() == old(self).slots().len(),
            forall|i: int|
                0 <= i < old(self).slots().len() && i != slot ==> final (self).slots()[i] == old(
                    self,
                ).slots()[i],
            final (self).slots()[slot as int] matches Slot::Live { strong, weak, object } && strong
                == 1 && weak == spec_weak_count(old(self).slots()[slot as int]) && object.table
                == table && object.fields == fields && object.strong_edges@ == strong_refs@
                .map_values(|r: StrongHandle| (r.idx() as usize)) && object.weak_edges@
                == weak_refs@.map_values(|r: WeakHandle| (r.idx() as usize)),
    {
        let weak = match self.slots[slot] {
            Slot::Reserved { weak } => weak,
            _ => 0,
        };
        let mut strong_edges: Vec<usize> = Vec::new();
        let mut k: usize = 0;
        let n = strong_refs.len();
        while k < n
            invariant
                0 <= k <= n,
                n == strong_refs@.len(),
                strong_edges@ == strong_refs@.subrange(0, k as int).map_values(
                    |r: StrongHandle| (r.idx() as usize),
                ),
            decreases n - k,
        {
            let ghost pre = strong_edges@;
            strong_edges.push(strong_refs[k].index());
            proof {
                assert(strong_refs@.subrange(0, k + 1) =~= strong_refs@.subrange(0, k as int).push(
                    strong_refs@[k as int],
                ));
                assert(strong_edges@ =~= strong_refs@.subrange(0, k + 1).map_values(
                    |r: StrongHandle| (r.idx() as usize),
                ));
            }
            k = k + 1;
        }
        let mut weak_edges: Vec<usize> = Vec::new();
        let mut k2: usize = 0;
        let n2 = weak_refs.len();
        while k2 < n2
            invariant
                0 <= k2 <= n2,
                n2 == weak_refs@.len(),
                weak_edges@ == weak_refs@.subrange(0, k2 as int).map_values(
                    |r: WeakHandle| (r.idx() as usize),
                ),
            decreases n2 - k2,
        {
            weak_edges.push(weak_refs[k2].index());
            proof {
                assert(weak_refs@.subrange(0, k2 + 1) =~= weak_refs@.subrange(0, k2 as int).push(
                    weak_refs@[k2 as int],
                ));
                assert(weak_edges@ =~= weak_refs@.subrange(0, k2 + 1).map_values(
                    |r: WeakHandle| (r.idx() as usize),
                ));
            }
            k2 = k2 + 1;
        }
        proof {
            assert(strong_refs@.subrange(0, n as int) =~= strong_refs@);
            assert(weak_refs@.subrange(0, n2 as int) =~= weak_refs@);
        }
        let object = ManagedObject { table, fields, strong_edges, weak_edges };
        self.slots[slot] = Slot::Live { strong: 1, weak, object };
        StrongHandle { index: slot }
    }

    /// Abandons a reservation: the initializer failed, so the allocation is
    /// rolled back with no leaked reference. The weak self-handle is
    /// surrendered; if it was the last weak handle the slot is freed,
    /// otherwise the remaining weak handles see a dead slot.
    pub fn roll_back(&mut self, w: WeakHandle)
        requires
            old(self).wf(),
            0 <= w.idx() < old(self).slots().len(),
            old(self).slots()[w.idx()] is Reserved,
            spec_weak_count(old(self).slots()[w.idx()]) >= 1,
        ensures
            final (self).wf(),
            final (self).slots() == old(self).slots().update(
                w.idx(),
                if spec_weak_count(old(self).slots()[w.idx()]) == 1 {
                    Slot::Free
                } else {
                    (Slot::Dead { weak: (spec_weak_count(old(self).slots()[w.idx()]) - 1) as u64 })
                },
            ),
    {
        let i = w.index();
        let weak = match self.slots[i] {
            Slot::Reserved { weak } => weak,
            _ => 1,
        };
        if weak <= 1 {
            self.slots[i] = Slot::Free;
        } else {
            self.slots[i] = Slot::Dead { weak: weak - 1 };
        }
    }

    /// Attempts to obtain a strong handle from a weak one. Succeeds, and
    /// counts the new handle, exactly while the object is alive — that is,
    /// while at least one strong handle to it exists; fails on a reserved,
    /// dead or freed slot.
    pub fn upgrade(&mut self, w: &WeakHandle) -> (r: Option<StrongHandle>)
        requires
            old(self).wf(),
            0 <= w.idx() < old(self).slots().len(),
            spec_strong_count(old(self).slots()[w.idx()]) < u64::MAX,
        ensures
            final (self).wf(),
            r is Some <==> old(self).slots()[w.idx()] is Live,
            r matches Some(h) ==> h.idx() == w.idx() && final (self).slots() == old(
                self,
            ).slots().update(
                w.idx(),
                (Slot::Live {
                    strong: (spec_strong_count(old(self).slots()[w.idx()]) + 1) as u64,
                    weak: spec_weak_count(old(self).slots()[w.idx()]) as u64,
                    object: final (self).slots()[w.idx()]->Live_object,
                }),
            ) && final (self).slots()[w.idx()]->Live_object == old(
                self,
            ).slots()[w.idx()]->Live_object,
            r is None ==> *final (self) == *old(self),
    {
        let i = w.index();
        let alive = match &self.slots[i] {
            Slot::Live { .. } => true,
            _ => false,
        };
        if !alive {
            return Option::None;
        }
        let mut taken = Slot::Free;
        core::mem::swap(&mut taken, &mut self.slots[i]);
        match taken {
            Slot::Live { strong, weak, object } => {
                self.slots[i] = Slot::Live { strong: strong + 1, weak, object };
                proof {
                    assert(final (self).slots() =~= old(self).slots().update(
                        w.idx(),
                        final (self).slots()[w.idx()],
                    ));
                }
                Option::Some(StrongHandle { index: i })
            },
            _ => {
                proof {
                    assert(false);
                }
                Option::None
            },
        }
    }

    /// Creates a weak handle from a strong one, counting it.
    pub fn downgrade(&mut self, h: &StrongHandle) -> (w: WeakHandle)
        requires
            old(self).wf(),
            0 <= h.idx() < old(self).slots().len(),
            old(self).slots()[h.idx()] is Live,
            spec_weak_count(old(self).slots()[h.idx()]) < u64::MAX,
        ensures
            final (self).wf(),
            w.idx() == h.idx(),
            final (self).slots() == old(self).slots().update(
                h.idx(),
                (Slot::Live {
                    strong: spec_strong_count(old(self).slots()[h.idx()]) as u64,
                    weak: (spec_weak_count(old(self).slots()[h.idx()]) + 1) as u64,
                    object: final (self).slots()[h.idx()]->Live_object,
                }),
            ),
            final (self).slots()[h.idx()]->Live_object == old(self).slots()[h.idx()]->Live_object,
    {
        let i = h.index();
        let mut taken = Slot::Free;
        core::mem::swap(&mut taken, &mut self.slots[i]);
        match taken {
            Slot::Live { strong, weak, object } => {
                self.slots[i] = Slot::Live { strong, weak: weak + 1, object };
                proof {
                    assert(final (self).slots() =~= old(self).slots().update(
                        h.idx(),
                        final (self).slots()[h.idx()],
                    ));
                }
                WeakHandle { index: i }
            },
            _ => {
                proof {
                    assert(false);
                }
                WeakHandle { index: i }
            },
        }
    }

    /// Duplicates a strong handle, counting it.
    pub fn clone_strong(&mut self, h: &StrongHandle) -> (h2: StrongHandle)
        requires
            old(self).wf(),
            0 <= h.idx() < old(self).slots().len(),
            old(self).slots()[h.idx()] is Live,
            spec_strong_count(old(self).slots()[h.idx()]) < u64::MAX,
        ensures
            final (self).wf(),
            h2.idx() == h.idx(),
            final (self).slots() == old(self).slots().update(
                h.idx(),
                (Slot::Live {
                    strong: (spec_strong_count(old(self).slots()[h.idx()]) + 1) as u64,
                    weak: spec_weak_count(old(self).slots()[h.idx()]) as u64,
                    object: final (self).slots()[h.idx()]->Live_object,
                }),
            ),
            final (self).slots()[h.idx()]->Live_object == old(self).slots()[h.idx()]->Live_object,
    {
        let i = h.index();
        let mut taken = Slot::Free;
        core::mem::swap(&mut taken, &mut self.slots[i]);
        match taken {
            Slot::Live { strong, weak, object } => {
                self.slots[i] = Slot::Live { strong: strong + 1, weak, object };
                proof {
                    assert(final (self).slots() =~= old(self).slots().update(
                        h.idx(),
                        final (self).slots()[h.idx()],
                    ));
                }
                StrongHandle { index: i }
            },
            _ => {
                proof {
                    assert(false);
                }
                StrongHandle { index: i }
            },
        }
    }

    /// One weak count surrendered at a slot, exactly as
    /// `spec_release_weak_at` describes.
    fn weak_decrement(&mut self, e: usize)
        ensures
            final (self).slots() == spec_release_weak_at(old(self).slots(), e as int),
    {
        let n = self.slots.len();
        if e < n {
            let mut taken = Slot::Free;
            core::mem::swap(&mut taken, &mut self.slots[e]);
            match taken {
                Slot::Free => {
                    self.slots[e] = Slot::Free;
                    proof {
                        assert(final (self).slots() =~= old(self).slots());
                    }
                },
                Slot::Reserved { weak } => {
                    self.slots[e] = Slot::Reserved {
                        weak: if weak > 0 {
                            weak - 1
                        } else {
                            0
                        },
                    };
                },
                Slot::Live { strong, weak, object } => {
                    self.slots[e] = Slot::Live {
                        strong,
                        weak: if weak > 0 {
                            weak - 1
                        } else {
                            0
                        },
                        object,
                    };
                },
                Slot::Dead { weak } => {
                    if weak <= 1 {
                        self.slots[e] = Slot::Free;
                    } else {
                        self.slots[e] = Slot::Dead { weak: weak - 1 };
                    }
                },
            }
        }
    }

    /// Surrenders a weak handle. The count drops; a dead slot whose last
    /// weak handle goes is freed. Never extends or shortens any lifetime.
    pub fn release_weak(&mut self, w: WeakHandle)
        requires
            old(self).wf(),
        ensures
            final (self).wf(),
            final (self).slots() == spec_release_weak_at(old(self).slots(), w.idx()),
    {
        let e = w.index();
        proof {
            lemma_weak_at_preserves(old(self).slots(), w.idx());
        }
        self.weak_decrement(e);
    }

    /// Surrenders a strong handle and runs the release cascade to
    /// completion: the slot gives up one strong count, a payload whose last
    /// count goes is dropped — its weak references released, its strong
    /// references surrendered in turn — and weak-only cycles are thereby
    /// collected. The result is exactly the cascade `spec_release_fuel`
    /// describes, run from this one handle.
    pub fn release_strong(&mut self, h: StrongHandle)
        requires
            old(self).wf(),
            0 <= h.idx() < old(self).slots().len(),
            old(self).slots()[h.idx()] is Live,
        ensures
            final (self).wf(),
            final (self).slots().len() == old(self).slots().len(),
            final (self).slots() == spec_release_fuel(
                old(self).slots(),
                seq![h.idx() as usize],
                spec_release_measure(old(self).slots(), seq![h.idx() as usize]),
            ),
    {
        let mut work: Vec<usize> = Vec::new();
        work.push(h.index());
        let ghost target = spec_release_fuel(
            old(self).slots(),
            work@,
            spec_release_measure(old(self).slots(), work@),
        );
        proof {
            assert(work@ =~= seq![h.idx() as usize]);
        }
        while work.len() > 0
            invariant
                spec_slots_wf(self.slots()),
                self.slots().len() == old(self).slots().len(),
                spec_release_fuel(
                    self.slots(),
                    work@,
                    spec_release_measure(self.slots(), work@),
                ) == target,
            decreases spec_release_measure(self.slots(), work@),
        {
            let ghost pre = self.slots();
            let ghost prework = work@;
            let id = work.remove(0);
            proof {
                assert(prework[0] == id);
                assert(work@ =~= prework.drop_first());
                lemma_step_decreases(pre, prework);
            }
            let n = self.slots.len();
            let mut died_edges: Option<ManagedObject> = Option::None;
            if id < n {
                let alive = match &self.slots[id] {
                    Slot::Live { .. } => true,
                    _ => false,
                };
                if alive {
                    let mut taken = Slot::Free;
                    core::mem::swap(&mut taken, &mut self.slots[id]);
                    match taken {
                        Slot::Live { strong, weak, object } => {
                            if strong > 1 {
                                self.slots[id] = Slot::Live { strong: strong - 1, weak, object };
                            } else {
                                if weak == 0 {
                                    self.slots[id] = Slot::Free;
                                } else {
                                    self.slots[id] = Slot::Dead { weak };
                                }
                                died_edges = Option::Some(object);
                            }
                        },
                        _ => {
                            proof {
                                assert(false);
                            }
                        },
                    }
                }
            }
            if let Option::Some(object) = died_edges {
                // the dying payload lets go of everything it referenced
                let ghost entry = self.slots();
                let ghost wedges = object.weak_edges@;
                let m = object.weak_edges.len();
                let mut k: usize = 0;
                proof {
                    assert(wedges.subrange(0, m as int) =~= wedges);
                }
                while k < m
                    invariant
                        0 <= k <= m,
                        m == wedges.len(),
                        object.weak_edges@ == wedges,
                        spec_release_weak_list(
                            self.slots(),
                            wedges.subrange(k as int, m as int),
                        ) == spec_release_weak_list(entry, wedges),
                    decreases m - k,
                {
                    let ghost rem = wedges.subrange(k as int, m as int);
                    proof {
                        assert(rem[0] == wedges[k as int]);
                        assert(rem.drop_first() =~= wedges.subrange(k + 1, m as int));
                    }
                    let e = object.weak_edges[k];
                    self.weak_decrement(e);
                    k = k + 1;
                }
                proof {
                    assert(wedges.subrange(m as int, m as int) =~= Seq::<usize>::empty());
                    let died_spec = if spec_weak_count(pre[id as int]) == 0 {
                        Slot::Free
                    } else {
                        (Slot::Dead { weak: spec_weak_count(pre[id as int]) as u64 })
                    };
                    assert(entry.len() == pre.len());
                    assert forall|j: int|
                        0 <= j < pre.len() implies entry[j] == pre.update(id as int, died_spec)[
                        j] by {
                        if j != id as int {
                            assert(entry[j] == pre[j]);
                        }
                    }
                    lemma_slots_pointwise(entry, pre.update(id as int, died_spec));
                    assert(self.slots() == spec_release_weak_list(
                        pre.update(id as int, died_spec),
                        wedges,
                    ));
                    assert(wedges == pre[id as int]->Live_object.weak_edges@);
                }
                let mut sedges = object.strong_edges;
                work.append(&mut sedges);
            }
            proof {
                let (g, w) = spec_release_step(pre, prework);
                if 0 <= id < pre.len() && pre[id as int] is Live {
                    if spec_strong_count(pre[id as int]) > 1 {
                        assert(g == pre.update(
                            id as int,
                            (Slot::Live {
                                strong: (spec_strong_count(pre[id as int]) - 1) as u64,
                                weak: spec_weak_count(pre[id as int]) as u64,
                                object: pre[id as int]->Live_object,
                            }),
                        ));
                        assert(self.slots()[id as int] == g[id as int]);
                        assert forall|j: int| 0 <= j < g.len() implies self.slots()[j] == g[j] by {
                            if j != id as int {
                                assert(self.slots()[j] == pre[j]);
                                assert(g[j] == pre[j]);
                            }
                        }
                        lemma_slots_pointwise(self.slots(), g);
                    } else {
                        assert(self.slots() == g);
                    }
                } else {
                    assert(self.slots() == g);
                }
                assert(self.slots() == g);
                assert(work@ =~= w);
                let m0 = spec_release_measure(pre, prework);
                assert(spec_release_fuel(pre, prework, m0) == spec_release_fuel(
                    g,
                    w,
                    (m0 - 1) as nat,
                ));
                lemma_fuel_irrelevant(g, w, (m0 - 1) as nat);
            }
        }
        proof {
            assert(spec_release_fuel(
                self.slots(),
                work@,
                spec_release_measure(self.slots(), work@),
            ) == self.slots());
        }
    }

    /// How many slots the graph has ever allocated.
    pub fn slot_count(&self) -> (n: usize)
        ensures
            n == self.slots().len(),
    {
        self.slots.len()
    }

    /// Whether the slot holds a live payload.
    pub fn is_live(&self, i: usize) -> (r: bool)
        requires
            i < self.slots().len(),
        ensures
            r == (self.slots()[i as int] is Live),
    {
        match &self.slots[i] {
            Slot::Live { .. } => true,
            _ => false,
        }
    }

    /// The slot's strong count.
    pub fn strong_count_of(&self, i: usize) -> (n: u64)
        requires
            i < self.slots().len(),
        ensures
            n == spec_strong_count(self.slots()[i as int]),
    {
        match &self.slots[i] {
            Slot::Live { strong, .. } => *strong,
            _ => 0,
        }
    }

    /// The slot's weak count.
    pub fn weak_count_of(&self, i: usize) -> (n: u64)
        requires
            i < self.slots().len(),
        ensures
            n == spec_weak_count(self.slots()[i as int]),
    {
        match &self.slots[i] {
            Slot::Free => 0,
            Slot::Reserved { weak } => *weak,
            Slot::Live { weak, .. } => *weak,
            Slot::Dead { weak } => *weak,
        }
    }

    /// How many slots are alive: the graph's drop counter.
    pub fn live_count(&self) -> (n: usize)
        ensures
            n == spec_live_count(self.slots()),
    {
        let ghost all = self.slots();
        let total = self.slots.len();
        let mut n: usize = 0;
        let mut k: usize = 0;
        proof {
            assert(all.subrange(0, total as int) =~= all);
        }
        while k < total
            invariant
                0 <= k <= total,
                total == all.len(),
                self.slots() == all,
                n <= k,
                n + spec_live_count(all.subrange(k as int, total as int)) == spec_live_count(all),
            decreases total - k,
        {
            let ghost rem = all.subrange(k as int, total as int);
            proof {
                assert(rem[0] == all[k as int]);
                assert(rem.drop_first() =~= all.subrange(k + 1, total as int));
            }
            let alive = match &self.slots[k] {
                Slot::Live { .. } => true,
                _ => false,
            };
            if alive {
                n = n + 1;
            }
            k = k + 1;
        }
        proof {
            assert(all.subrange(total as int, total as int) =~= Seq::<Slot>::empty());
        }
        n
    }

    /// Reads one component field of a live object. The ref count answers
    /// only liveness; guarding this read against concurrent writers is the
    /// coordination lock's job.
    pub fn read_field(&self, h: &StrongHandle, f: usize) -> (v: i64)
        requires
            0 <= h.idx() < self.slots().len(),
            self.slots()[h.idx()] is Live,
            f < self.slots()[h.idx()]->Live_object.fields@.len(),
        ensures
            v == self.slots()[h.idx()]->Live_object.fields@[f as int],
    {
        let i = h.index();
        match &self.slots[i] {
            Slot::Live { object, .. } => object.fields[f],
            _ => {
                proof {
                    assert(false);
                }
                0
            },
        }
    }

    /// Writes one component field of a live object. Counts, edges and every
    /// other slot are untouched. The caller must hold the object's
    /// coordination lock in write mode; that protocol is the lock's, not
    /// the graph's.
    pub fn write_field(&mut self, h: &StrongHandle, f: usize, v: i64)
        requires
            old(self).wf(),
            0 <= h.idx() < old(self).slots().len(),
            old(self).slots()[h.idx()] is Live,
            f < old(self).slots()[h.idx()]->Live_object.fields@.len(),
        ensures
            final (self).wf(),
            final (self).slots().len() == old(self).slots().len(),
            forall|j: int|
                0 <= j < old(self).slots().len() && j != h.idx() ==> final (self).slots()[j] == old(
                    self,
                ).slots()[j],
            final (self).slots()[h.idx()] matches Slot::Live { strong, weak, object } && strong
                == spec_strong_count(old(self).slots()[h.idx()]) && weak == spec_weak_count(
                old(self).slots()[h.idx()],
            ) && object.table == old(self).slots()[h.idx()]->Live_object.table
                && object.strong_edges@ == old(self).slots()[h.idx()]->Live_object.strong_edges@
                && object.weak_edges@ == old(self).slots()[h.idx()]->Live_object.weak_edges@
                && object.fields@ == old(self).slots()[h.idx()]->Live_object.fields@.update(
                f as int,
                v,
            ),
    {
        let i = h.index();
        let mut taken = Slot::Free;
        core::mem::swap(&mut taken, &mut self.slots[i]);
        match taken {
            Slot::Live { strong, weak, mut object } => {
                object.fields[f] = v;
                self.slots[i] = Slot::Live { strong, weak, object };
            },
            _ => {
                proof {
                    assert(false);
                }
            },
        }
    }

    /// Casts a live object to the requested capability through its own
    /// table: the accessor of the matching component, or a typed cast
    /// failure if the object does not support the interface.
    pub fn cast_object(&self, h: &StrongHandle, tag: u64) -> (r: Result<usize, CoreError>)
        requires
            0 <= h.idx() < self.slots().len(),
            self.slots()[h.idx()] is Live,
        ensures
            self.slots()[h.idx()]->Live_object.table.supports(tag) ==> r == Result::<
                usize,
                CoreError,
            >::Ok(
                crate::capability::spec_accessor(
                    self.slots()[h.idx()]->Live_object.table.entries(),
                    tag,
                ),
            ),
            !self.slots()[h.idx()]->Live_object.table.supports(tag) ==> r == Result::<
                usize,
                CoreError,
            >::Err(CoreError::CastFailure),
    {
        let i = h.index();
        match &self.slots[i] {
            Slot::Live { object, .. } => object.table.cast_to(tag),
            _ => {
                proof {
                    assert(false);
                }
                Result::Err(CoreError::CastFailure)
            },
        }
    }
}

/// How many slots hold a live payload.
pub open spec fn spec_live_count(slots: Seq<Slot>) -> nat
    decreases slots.len(),
{
    if slots.len() == 0 {
        0
    } else {
        (if slots[0] is Live {
            1nat
        } else {
            0nat
        }) + spec_live_count(slots.drop_first())
    }
}

/// One weak count surrendered at a slot: a dead slot whose last weak handle
/// goes is freed; elsewhere only the count drops.
pub open spec fn spec_release_weak_at(slots: Seq<Slot>, i: int) -> Seq<Slot> {
    if 0 <= i < slots.len() {
        match slots[i] {
            Slot::Free => slots,
            Slot::Reserved { weak } => slots.update(
                i,
                (Slot::Reserved {
                    weak: if weak > 0 {
                        (weak - 1) as u64
                    } else {
                        0
                    },
                }),
            ),
            Slot::Live { strong, weak, object } => slots.update(
                i,
                (Slot::Live {
                    strong,
                    weak: if weak > 0 {
                        (weak - 1) as u64
                    } else {
                        0
                    },
                    object,
                }),
            ),
            Slot::Dead { weak } => slots.update(
                i,
                if weak <= 1 {
                    Slot::Free
                } else {
                    (Slot::Dead { weak: (weak - 1) as u64 })
                },
            ),
        }
    } else {
        slots
    }
}

/// A list of weak counts surrendered, first entry first.
pub open spec fn spec_release_weak_list(slots: Seq<Slot>, edges: Seq<usize>) -> Seq<Slot>
    decreases edges.len(),
{
    if edges.len() == 0 {
        slots
    } else {
        spec_release_weak_list(spec_release_weak_at(slots, edges[0] as int), edges.drop_first())
    }
}

/// The strong counts of the whole graph, summed.
pub open spec fn spec_total_strong(slots: Seq<Slot>) -> nat
    decreases slots.len(),
{
    if slots.len() == 0 {
        0
    } else {
        spec_strong_count(slots[0]) + spec_total_strong(slots.drop_first())
    }
}

/// How many strong edges a slot stores.
pub open spec fn spec_edge_count(s: Slot) -> nat {
    match s {
        Slot::Live { object, .. } => object.strong_edges@.len(),
        _ => 0,
    }
}

/// The strong edges stored in the whole graph, summed.
pub open spec fn spec_total_edges(slots: Seq<Slot>) -> nat
    decreases slots.len(),
{
    if slots.len() == 0 {
        0
    } else {
        spec_edge_count(slots[0]) + spec_total_edges(slots.drop_first())
    }
}

/// The termination measure of a release cascade: every pending worklist
/// entry either decrements a strong count or is discarded, and a dying
/// payload moves its stored edges onto the worklist.
pub open spec fn spec_release_measure(slots: Seq<Slot>, work: Seq<usize>) -> nat {
    spec_total_strong(slots) + spec_total_edges(slots) + work.len()
}

/// One step of a release cascade: the front worklist entry gives up one
/// strong count; if that was the last, the payload dies — remaining weak
/// handles see a dead slot, or the slot is freed outright — its weak
/// references are released at once and its strong references join the
/// worklist. An entry whose slot is not live is discarded.
pub open spec fn spec_release_step(slots: Seq<Slot>, work: Seq<usize>) -> (Seq<Slot>, Seq<usize>)
    recommends
        work.len() > 0,
{
    let i = work[0] as int;
    let rest = work.drop_first();
    if 0 <= i < slots.len() && slots[i] is Live {
        let strong = spec_strong_count(slots[i]);
        let weak = spec_weak_count(slots[i]);
        let object = slots[i]->Live_object;
        if strong > 1 {
            (
                slots.update(
                    i,
                    (Slot::Live { strong: (strong - 1) as u64, weak: weak as u64, object }),
                ),
                rest,
            )
        } else {
            let died = if weak == 0 {
                Slot::Free
            } else {
                (Slot::Dead { weak: weak as u64 })
            };
            (
                spec_release_weak_list(slots.update(i, died), object.weak_edges@),
                rest + object.strong_edges@,
            )
        }
    } else {
        (slots, rest)
    }
}

/// A release cascade run to completion, fuel bounding the number of steps.
/// `spec_release_measure` steps always suffice.
pub open spec fn spec_release_fuel(slots: Seq<Slot>, work: Seq<usize>, fuel: nat) -> Seq<Slot>
    decreases fuel,
{
    if fuel == 0 || work.len() == 0 {
        slots
    } else {
        let (g, w) = spec_release_step(slots, work);
        spec_release_fuel(g, w, (fuel - 1) as nat)
    }
}

proof fn lemma_slots_pointwise(s1: Seq<Slot>, s2: Seq<Slot>)
    requires
        s1.len() == s2.len(),
        forall|j: int| 0 <= j < s1.len() ==> s1[j] == s2[j],
    ensures
        s1 == s2,
{
    assert(s1 =~= s2);
}

proof fn lemma_total_strong_update(slots: Seq<Slot>, i: int, s: Slot)
    requires
        0 <= i < slots.len(),
    ensures
        spec_total_strong(slots.update(i, s)) + spec_strong_count(slots[i]) == spec_total_strong(
            slots,
        ) + spec_strong_count(s),
    decreases slots.len(),
{
    if i == 0 {
        assert(slots.update(0, s)[0] == s);
        assert(slots.update(0, s).drop_first() =~= slots.drop_first());
    } else {
        assert(slots.update(i, s)[0] == slots[0]);
        assert(slots.update(i, s).drop_first() =~= slots.drop_first().update(i - 1, s));
        lemma_total_strong_update(slots.drop_first(), i - 1, s);
    }
}

proof fn lemma_total_edges_update(slots: Seq<Slot>, i: int, s: Slot)
    requires
        0 <= i < slots.len(),
    ensures
        spec_total_edges(slots.update(i, s)) + spec_edge_count(slots[i]) == spec_total_edges(slots)
            + spec_edge_count(s),
    decreases slots.len(),
{
    if i == 0 {
        assert(slots.update(0, s)[0] == s);
        assert(slots.update(0, s).drop_first() =~= slots.drop_first());
    } else {
        assert(slots.update(i, s)[0] == slots[0]);
        assert(slots.update(i, s).drop_first() =~= slots.drop_first().update(i - 1, s));
        lemma_total_edges_update(slots.drop_first(), i - 1, s);
    }
}

proof fn lemma_weak_at_preserves(slots: Seq<Slot>, i: int)
    ensures
        spec_release_weak_at(slots, i).len() == slots.len(),
        spec_total_strong(spec_release_weak_at(slots, i)) == spec_total_strong(slots),
        spec_total_edges(spec_release_weak_at(slots, i)) == spec_total_edges(slots),
        spec_slots_wf(slots) ==> spec_slots_wf(spec_release_weak_at(slots, i)),
{
    if 0 <= i < slots.len() {
        let out = spec_release_weak_at(slots, i);
        match slots[i] {
            Slot::Free => {},
            Slot::Reserved { weak } => {
                lemma_total_strong_update(slots, i, out[i]);
                lemma_total_edges_update(slots, i, out[i]);
            },
            Slot::Live { strong, weak, object } => {
                lemma_total_strong_update(slots, i, out[i]);
                lemma_total_edges_update(slots, i, out[i]);
            },
            Slot::Dead { weak } => {
                lemma_total_strong_update(slots, i, out[i]);
                lemma_total_edges_update(slots, i, out[i]);
            },
        }
    }
}

proof fn lemma_weak_list_preserves(slots: Seq<Slot>, edges: Seq<usize>)
    ensures
        spec_release_weak_list(slots, edges).len() == slots.len(),
        spec_total_strong(spec_release_weak_list(slots, edges)) == spec_total_strong(slots),
        spec_total_edges(spec_release_weak_list(slots, edges)) == spec_total_edges(slots),
        spec_slots_wf(slots) ==> spec_slots_wf(spec_release_weak_list(slots, edges)),
    decreases edges.len(),
{
    if edges.len() > 0 {
        lemma_weak_at_preserves(slots, edges[0] as int);
        lemma_weak_list_preserves(spec_release_weak_at(slots, edges[0] as int), edges.drop_first());
    }
}

proof fn lemma_step_decreases(slots: Seq<Slot>, work: Seq<usize>)
    requires
        work.len() > 0,
    ensures
        spec_release_step(slots, work).0.len() == slots.len(),
        spec_release_measure(spec_release_step(slots, work).0, spec_release_step(slots, work).1)
            < spec_release_measure(slots, work),
        spec_slots_wf(slots) ==> spec_slots_wf(spec_release_step(slots, work).0),
{
    let i = work[0] as int;
    if 0 <= i < slots.len() && slots[i] is Live {
        let strong = spec_strong_count(slots[i]);
        let weak = spec_weak_count(slots[i]);
        let object = slots[i]->Live_object;
        if strong > 1 {
            let s2 = Slot::Live {
                strong: (strong - 1) as u64,
                weak: weak as u64,
                object,
            };
            lemma_total_strong_update(slots, i, s2);
            lemma_total_edges_update(slots, i, s2);
        } else {
            let died = if weak == 0 {
                Slot::Free
            } else {
                (Slot::Dead { weak: weak as u64 })
            };
            lemma_total_strong_update(slots, i, died);
            lemma_total_edges_update(slots, i, died);
            lemma_weak_list_preserves(slots.update(i, died), object.weak_edges@);
            if spec_slots_wf(slots) {
                assert(spec_slots_wf(slots.update(i, died)));
            }
        }
    }
}

proof fn lemma_fuel_irrelevant(slots: Seq<Slot>, work: Seq<usize>, fuel: nat)
    requires
        fuel >= spec_release_measure(slots, work),
    ensures
        spec_release_fuel(slots, work, fuel) == spec_release_fuel(
            slots,
            work,
            spec_release_measure(slots, work),
        ),
    decreases fuel,
{
    if work.len() > 0 {
        let m = spec_release_measure(slots, work);
        let (g, w) = spec_release_step(slots, work);
        lemma_step_decreases(slots, work);
        lemma_fuel_irrelevant(g, w, (fuel - 1) as nat);
        lemma_fuel_irrelevant(g, w, (m - 1) as nat);
    }
}

/// An object can be reached through a weak handle exactly while it is kept
/// alive by a strong count: in a well-formed graph, a slot is live if and
/// only if at least one strong handle to it exists.
pub proof fn lemma_upgrade_iff_alive(g: ObjectGraph, i: int)
    requires
        g.wf(),
        0 <= i < g.slots().len(),
    ensures
        g.slots()[i] is Live <==> spec_strong_count(g.slots()[i]) >= 1,
{
}

} // verus!
