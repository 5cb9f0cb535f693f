//! Capability-based dynamic dispatch. Each concrete object type carries an
//! immutable table, built once, that maps an interface tag to the accessor
//! for the component implementing that interface inside the concrete object.
//! This substitutes for virtual or multiple inheritance: a failed cast is a
//! typed error, never undefined behavior, and the mandatory root capability
//! is always present.

use vstd::prelude::*;

use crate::errors::CoreError;

verus! {

/// The tag of the mandatory root capability, which every table supports.
pub const ROOT_INTERFACE: u64 = 0;

/// One registered capability: the interface tag and the index of the
/// component inside the concrete object that implements it.
#[derive(Clone, Copy, PartialEq, Eq, Structural, Debug)]
pub struct CapabilityEntry {
    pub tag: u64,
    pub component: usize,
}

/// The per-type closed set of capability interfaces an object supports.
#[derive(Clone, Debug)]
pub struct CapabilityTable {
    entries: Vec<CapabilityEntry>,
}

/// The builder through which a concrete type registers its capabilities,
/// starting from the mandatory root capability.
#[derive(Clone, Debug)]
pub struct CapabilityTableBuilder {
    entries: Vec<CapabilityEntry>,
}

/// Whether a sequence of entries registers the given tag.
pub open spec fn spec_registers(entries: Seq<CapabilityEntry>, tag: u64) -> bool {
    exists|i: int| 0 <= i < entries.len() && entries[i].tag == tag
}

/// The component registered for a tag: that of the first entry carrying it.
pub open spec fn spec_accessor(entries: Seq<CapabilityEntry>, tag: u64) -> usize
    decreases entries.len(),
{
    if entries.len() == 0 {
        0
    } else if entries[0].tag == tag {
        entries[0].component
    } else {
        spec_accessor(entries.drop_first(), tag)
    }
}

/// Whether a sequence of entries carries pairwise distinct tags.
pub open spec fn spec_tags_distinct(entries: Seq<CapabilityEntry>) -> bool {
    forall|i: int, j: int|
        0 <= i < j < entries.len() ==> entries[i].tag != entries[j].tag
}

impl CapabilityTable {
    /// The registered entries.
    pub closed spec fn entries(&self) -> Seq<CapabilityEntry> {
        self.entries@
    }

    /// A well-formed table has distinct tags and supports the root
    /// capability.
    pub open spec fn wf(&self) -> bool {
        &&& spec_tags_distinct(self.entries())
        &&& spec_registers(self.entries(), ROOT_INTERFACE)
    }

    /// Whether the table supports the given interface.
    pub open spec fn supports(&self, tag: u64) -> bool {
        spec_registers(self.entries(), tag)
    }

    /// Scans the table for the requested interface and returns the accessor
    /// of the component implementing it, or a typed cast failure if the
    /// interface is not registered. Never panics; total for the root
    /// capability of a well-formed table.
    pub fn cast_to(&self, tag: u64) -> (r: Result<usize, CoreError>)
        ensures
            self.supports(tag) ==> r == Result::<usize, CoreError>::Ok(
                spec_accessor(self.entries(), tag),
            ),
            !self.supports(tag) ==> r == Result::<usize, CoreError>::Err(CoreError::CastFailure),
    {
        let n = self.entries.len();
        let mut i: usize = 0;
        proof {
            assert(self.entries@.subrange(0, n as int) =~= self.entries@);
        }
        while i < n
            invariant
                0 <= i <= n,
                n == self.entries@.len(),
                forall|j: int| 0 <= j < i ==> self.entries@[j].tag != tag,
                spec_accessor(self.entries@, tag) == spec_accessor(
                    self.entries@.subrange(i as int, n as int),
                    tag,
                ),
            decreases n - i,
        {
            proof {
                assert(self.entries@.subrange(i as int, n as int).drop_first() =~= self.entries@
                    .subrange(i + 1, n as int));
            }
            if self.entries[i].tag == tag {
                proof {
                    assert(self.entries@.subrange(i as int, n as int)[0] == self.entries@[i as int]);
                }
                return Result::Ok(self.entries[i].component);
            }
            i = i + 1;
        }
        assert(!spec_registers(self.entries@, tag));
        Result::Err(CoreError::CastFailure)
    }

    /// The accessor for the root capability; total on a well-formed table.
    pub fn cast_to_root(&self) -> (r: usize)
        requires
            self.wf(),
        ensures
            r == spec_accessor(self.entries(), ROOT_INTERFACE),
    {
        let cast = self.cast_to(ROOT_INTERFACE);
        match cast {
            Result::Ok(component) => component,
            Result::Err(_) => {
                proof {
                    assert(self.supports(ROOT_INTERFACE));
                }
                assert(false);
                0
            },
        }
    }
}

impl CapabilityTableBuilder {
    /// Starts a table with the mandatory root capability reaching the given
    /// component.
    pub fn new(root_component: usize) -> (b: CapabilityTableBuilder)
        ensures
            b.entries() == seq![
                CapabilityEntry { tag: ROOT_INTERFACE, component: root_component },
            ],
    {
        let mut entries: Vec<CapabilityEntry> = Vec::new();
        entries.push(CapabilityEntry { tag: ROOT_INTERFACE, component: root_component });
        proof {
            assert(entries@ =~= seq![
                CapabilityEntry { tag: ROOT_INTERFACE, component: root_component },
            ]);
        }
        CapabilityTableBuilder { entries }
    }

    /// The entries registered so far.
    pub closed spec fn entries(&self) -> Seq<CapabilityEntry> {
        self.entries@
    }

    /// Registers one more capability. The per-type set is closed and built
    /// once, so a tag may only be registered once.
    pub fn insert(&mut self, tag: u64, component: usize)
        requires
            !spec_registers(old(self).entries(), tag),
        ensures
            final (self).entries() == old(self).entries().push(
                CapabilityEntry { tag, component },
            ),
    {
        self.entries.push(CapabilityEntry { tag, component });
    }

    /// Finishes the table. The result is well formed whenever the builder's
    /// tags are distinct, which holds by construction of `new` and `insert`.
    pub fn output(self) -> (t: CapabilityTable)
        ensures
            t.entries() == self.entries(),
    {
        CapabilityTable { entries: self.entries }
    }
}

/// Casting is deterministic: it depends only on the table and the tag, so a
/// registered interface always casts to the same accessor and an
/// unregistered one always fails, regardless of call order or calling
/// thread.
pub proof fn lemma_cast_deterministic(t1: CapabilityTable, t2: CapabilityTable, tag: u64)
    requires
        t1.entries() == t2.entries(),
    ensures
        t1.supports(tag) == t2.supports(tag),
        spec_accessor(t1.entries(), tag) == spec_accessor(t2.entries(), tag),
{
}

/// The root capability cast is total: a well-formed table supports it.
pub proof fn lemma_root_cast_total(t: CapabilityTable)
    requires
        t.wf(),
    ensures
        t.supports(ROOT_INTERFACE),
{
}

} // verus!
