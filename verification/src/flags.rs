//! The runtime's typed flag store. Every flag has a fixed kind; reading or
//! writing a flag at the wrong kind is a caller error, ruled out by
//! precondition where the host once panicked. Floating-point flag values are
//! carried opaquely as their bit patterns: the runtime stores and returns
//! them but never computes with them.

use vstd::prelude::*;

verus! {

/// A runtime configuration flag.
#[derive(Clone, Copy, PartialEq, Eq, Structural, Debug, Hash)]
pub enum FastFlag {
    TargetFPS,
    VSync,
    TargetPhysicsFPS,
    MaxPhysicsStepsPerFrame,
    GameId,
    GameName,
    CreatorId,
    CreatorType,
    PlaceId,
    JobId,
    PlaceVersion,
    PrivateServerId,
    PrivateServerOwnerId,
    GlobalsReadonly,
    IsClient,
    IsStudio,
    DebugMode,
    SignalBehavior,
}

/// The kind of value a flag holds.
#[derive(Clone, Copy, PartialEq, Eq, Structural, Debug)]
pub enum FlagKind {
    Bool,
    Int,
    Float,
    Text,
}

/// A floating-point value carried as its bit pattern. The runtime never
/// interprets the bits; the host converts at the boundary.
#[derive(Clone, Copy, PartialEq, Eq, Structural, Debug)]
pub struct FloatBits {
    pub bits: u64,
}

/// The value of one flag.
#[derive(Clone, PartialEq, Eq, Debug)]
pub enum FastFlagValue {
    Bool(bool),
    Int(i64),
    Float(FloatBits),
    Str(String),
}

/// The bit pattern of the sixty-frames-per-second default rate.
pub const SIXTY_FPS_BITS: u64 = 0x404E000000000000;

/// The position of a flag in the backing store.
pub open spec fn spec_flag_index(flag: FastFlag) -> int {
    match flag {
        FastFlag::TargetFPS => 0,
        FastFlag::VSync => 1,
        FastFlag::TargetPhysicsFPS => 2,
        FastFlag::MaxPhysicsStepsPerFrame => 3,
        FastFlag::GameId => 4,
        FastFlag::GameName => 5,
        FastFlag::CreatorId => 6,
        FastFlag::CreatorType => 7,
        FastFlag::PlaceId => 8,
        FastFlag::JobId => 9,
        FastFlag::PlaceVersion => 10,
        FastFlag::PrivateServerId => 11,
        FastFlag::PrivateServerOwnerId => 12,
        FastFlag::GlobalsReadonly => 13,
        FastFlag::IsClient => 14,
        FastFlag::IsStudio => 15,
        FastFlag::DebugMode => 16,
        FastFlag::SignalBehavior => 17,
    }
}

/// How many flags there are.
pub const FLAG_COUNT: usize = 18;

/// The kind of value each flag holds.
pub open spec fn spec_flag_kind(flag: FastFlag) -> FlagKind {
    match flag {
        FastFlag::TargetFPS => FlagKind::Float,
        FastFlag::VSync => FlagKind::Bool,
        FastFlag::TargetPhysicsFPS => FlagKind::Float,
        FastFlag::MaxPhysicsStepsPerFrame => FlagKind::Int,
        FastFlag::GameId => FlagKind::Int,
        FastFlag::GameName => FlagKind::Text,
        FastFlag::CreatorId => FlagKind::Int,
        FastFlag::CreatorType => FlagKind::Int,
        FastFlag::PlaceId => FlagKind::Int,
        FastFlag::JobId => FlagKind::Text,
        FastFlag::PlaceVersion => FlagKind::Int,
        FastFlag::PrivateServerId => FlagKind::Text,
        FastFlag::PrivateServerOwnerId => FlagKind::Int,
        FastFlag::GlobalsReadonly => FlagKind::Bool,
        FastFlag::IsClient => FlagKind::Bool,
        FastFlag::IsStudio => FlagKind::Bool,
        FastFlag::DebugMode => FlagKind::Bool,
        FastFlag::SignalBehavior => FlagKind::Int,
    }
}

impl FastFlag {
    /// The kind of value this flag holds.
    pub fn kind(&self) -> (k: FlagKind)
        ensures
            k == spec_flag_kind(*self),
    {
        match self {
            FastFlag::TargetFPS => FlagKind::Float,
            FastFlag::VSync => FlagKind::Bool,
            FastFlag::TargetPhysicsFPS => FlagKind::Float,
            FastFlag::MaxPhysicsStepsPerFrame => FlagKind::Int,
            FastFlag::GameId => FlagKind::Int,
            FastFlag::GameName => FlagKind::Text,
            FastFlag::CreatorId => FlagKind::Int,
            FastFlag::CreatorType => FlagKind::Int,
            FastFlag::PlaceId => FlagKind::Int,
            FastFlag::JobId => FlagKind::Text,
            FastFlag::PlaceVersion => FlagKind::Int,
            FastFlag::PrivateServerId => FlagKind::Text,
            FastFlag::PrivateServerOwnerId => FlagKind::Int,
            FastFlag::GlobalsReadonly => FlagKind::Bool,
            FastFlag::IsClient => FlagKind::Bool,
            FastFlag::IsStudio => FlagKind::Bool,
            FastFlag::DebugMode => FlagKind::Bool,
            FastFlag::SignalBehavior => FlagKind::Int,
        }
    }

    fn index(&self) -> (i: usize)
        ensures
            i == spec_flag_index(*self),
    {
        match self {
            FastFlag::TargetFPS => 0,
            FastFlag::VSync => 1,
            FastFlag::TargetPhysicsFPS => 2,
            FastFlag::MaxPhysicsStepsPerFrame => 3,
            FastFlag::GameId => 4,
            FastFlag::GameName => 5,
            FastFlag::CreatorId => 6,
            FastFlag::CreatorType => 7,
            FastFlag::PlaceId => 8,
            FastFlag::JobId => 9,
            FastFlag::PlaceVersion => 10,
            FastFlag::PrivateServerId => 11,
            FastFlag::PrivateServerOwnerId => 12,
            FastFlag::GlobalsReadonly => 13,
            FastFlag::IsClient => 14,
            FastFlag::IsStudio => 15,
            FastFlag::DebugMode => 16,
            FastFlag::SignalBehavior => 17,
        }
    }

    /// The default value of this flag.
    pub fn get_default(&self) -> (v: FastFlagValue)
        ensures
            spec_flag_default(*self, v),
    {
        match self {
            FastFlag::TargetFPS => FastFlagValue::Float(FloatBits { bits: SIXTY_FPS_BITS }),
            FastFlag::VSync => FastFlagValue::Bool(true),
            FastFlag::TargetPhysicsFPS => FastFlagValue::Float(FloatBits { bits: SIXTY_FPS_BITS }),
            FastFlag::MaxPhysicsStepsPerFrame => FastFlagValue::Int(8),
            FastFlag::GameId => FastFlagValue::Int(0),
            FastFlag::GameName => FastFlagValue::Str(String::from_str("rblx-godot")),
            FastFlag::CreatorId => FastFlagValue::Int(0),
            FastFlag::CreatorType => FastFlagValue::Int(0),
            FastFlag::PlaceId => FastFlagValue::Int(0),
            FastFlag::JobId => FastFlagValue::Str(String::new()),
            FastFlag::PlaceVersion => FastFlagValue::Int(1),
            FastFlag::PrivateServerId => FastFlagValue::Str(String::from_str("reserved server")),
            FastFlag::PrivateServerOwnerId => FastFlagValue::Int(0),
            FastFlag::GlobalsReadonly => FastFlagValue::Bool(false),
            FastFlag::IsClient => FastFlagValue::Bool(true),
            FastFlag::IsStudio => FastFlagValue::Bool(false),
            FastFlag::DebugMode => FastFlagValue::Bool(true),
            FastFlag::SignalBehavior => FastFlagValue::Int(0),
        }
    }
}

impl FastFlagValue {
    /// The kind of this value.
    pub open spec fn kind(&self) -> FlagKind {
        match self {
            FastFlagValue::Bool(_) => FlagKind::Bool,
            FastFlagValue::Int(_) => FlagKind::Int,
            FastFlagValue::Float(_) => FlagKind::Float,
            FastFlagValue::Str(_) => FlagKind::Text,
        }
    }
}

/// Whether `v` is the default value of `flag`. Text defaults are stated by
/// view, so the statement does not depend on any particular `String`
/// allocation.
pub open spec fn spec_flag_default(flag: FastFlag, v: FastFlagValue) -> bool {
    match flag {
        FastFlag::TargetFPS => v == FastFlagValue::Float(FloatBits { bits: SIXTY_FPS_BITS }),
        FastFlag::VSync => v == FastFlagValue::Bool(true),
        FastFlag::TargetPhysicsFPS => v == FastFlagValue::Float(
            FloatBits { bits: SIXTY_FPS_BITS },
        ),
        FastFlag::MaxPhysicsStepsPerFrame => v == FastFlagValue::Int(8),
        FastFlag::GameId => v == FastFlagValue::Int(0),
        FastFlag::GameName => v matches FastFlagValue::Str(s) && s@ == "rblx-godot"@,
        FastFlag::CreatorId => v == FastFlagValue::Int(0),
        FastFlag::CreatorType => v == FastFlagValue::Int(0),
        FastFlag::PlaceId => v == FastFlagValue::Int(0),
        FastFlag::JobId => v matches FastFlagValue::Str(s) && s@ == Seq::<char>::empty(),
        FastFlag::PlaceVersion => v == FastFlagValue::Int(1),
        FastFlag::PrivateServerId => v matches FastFlagValue::Str(s) && s@ == "reserved server"@,
        FastFlag::PrivateServerOwnerId => v == FastFlagValue::Int(0),
        FastFlag::GlobalsReadonly => v == FastFlagValue::Bool(false),
        FastFlag::IsClient => v == FastFlagValue::Bool(true),
        FastFlag::IsStudio => v == FastFlagValue::Bool(false),
        FastFlag::DebugMode => v == FastFlagValue::Bool(true),
        FastFlag::SignalBehavior => v == FastFlagValue::Int(0),
    }
}

/// Whether a value store holds exactly every flag's default.
pub open spec fn spec_is_default_store(values: Seq<FastFlagValue>) -> bool {
    &&& values.len() == FLAG_COUNT
    &&& forall|f: FastFlag| spec_flag_default(f, #[trigger] values[spec_flag_index(f)])
}

/// The flag store: one value per flag, always of that flag's kind.
#[derive(Debug)]
pub struct FastFlags {
    values: Vec<FastFlagValue>,
}

/// The result of replaying an initialization table over a value store, first
/// entry first; a later entry for the same flag wins.
pub open spec fn spec_apply_table(
    values: Seq<FastFlagValue>,
    table: Seq<(FastFlag, FastFlagValue)>,
) -> Seq<FastFlagValue>
    decreases table.len(),
{
    if table.len() == 0 {
        values
    } else {
        spec_apply_table(
            values.update(spec_flag_index(table[0].0), table[0].1),
            table.drop_first(),
        )
    }
}

impl FastFlags {
    /// The stored values, indexed by `spec_flag_index`.
    pub closed spec fn values(&self) -> Seq<FastFlagValue> {
        self.values@
    }

    /// The stored value of one flag.
    pub open spec fn value_of(&self, flag: FastFlag) -> FastFlagValue {
        self.values()[spec_flag_index(flag)]
    }

    /// A well-formed store holds one value per flag, of that flag's kind.
    pub open spec fn wf(&self) -> bool {
        &&& self.values().len() == FLAG_COUNT
        &&& forall|f: FastFlag| (#[trigger] self.value_of(f)).kind() == spec_flag_kind(f)
    }

    /// A store holding every flag's default value.
    pub fn new() -> (r: FastFlags)
        ensures
            r.wf(),
            forall|f: FastFlag| spec_flag_default(f, #[trigger] r.value_of(f)),
    {
        let mut values: Vec<FastFlagValue> = Vec::new();
        values.push(FastFlag::TargetFPS.get_default());
        values.push(FastFlag::VSync.get_default());
        values.push(FastFlag::TargetPhysicsFPS.get_default());
        values.push(FastFlag::MaxPhysicsStepsPerFrame.get_default());
        values.push(FastFlag::GameId.get_default());
        values.push(FastFlag::GameName.get_default());
        values.push(FastFlag::CreatorId.get_default());
        values.push(FastFlag::CreatorType.get_default());
        values.push(FastFlag::PlaceId.get_default());
        values.push(FastFlag::JobId.get_default());
        values.push(FastFlag::PlaceVersion.get_default());
        values.push(FastFlag::PrivateServerId.get_default());
        values.push(FastFlag::PrivateServerOwnerId.get_default());
        values.push(FastFlag::GlobalsReadonly.get_default());
        values.push(FastFlag::IsClient.get_default());
        values.push(FastFlag::IsStudio.get_default());
        values.push(FastFlag::DebugMode.get_default());
        values.push(FastFlag::SignalBehavior.get_default());
        let r = FastFlags { values };
        proof {
            assert forall|f: FastFlag| spec_flag_default(f, #[trigger] r.value_of(f)) by {
                assert(r.value_of(f) == r.values()[spec_flag_index(f)]);
            }
            assert forall|f: FastFlag| (#[trigger] r.value_of(f)).kind() == spec_flag_kind(f) by {
                assert(spec_flag_default(f, r.value_of(f)));
            }
        }
        r
    }

    /// Reads a boolean flag.
    pub fn get_bool(&self, flag: FastFlag) -> (r: bool)
        requires
            self.wf(),
            spec_flag_kind(flag) == FlagKind::Bool,
        ensures
            self.value_of(flag) == FastFlagValue::Bool(r),
    {
        proof {
            assert(self.value_of(flag).kind() == spec_flag_kind(flag));
        }
        let i = flag.index();
        match &self.values[i] {
            FastFlagValue::Bool(b) => *b,
            _ => {
                proof {
                    assert(false);
                }
                false
            },
        }
    }

    /// Reads an integer flag. The creator-type flag is stored as an integer
    /// but was never readable through the integer accessor, and stays so.
    pub fn get_int(&self, flag: FastFlag) -> (r: i64)
        requires
            self.wf(),
            spec_flag_kind(flag) == FlagKind::Int,
            flag != FastFlag::CreatorType,
        ensures
            self.value_of(flag) == FastFlagValue::Int(r),
    {
        proof {
            assert(self.value_of(flag).kind() == spec_flag_kind(flag));
        }
        let i = flag.index();
        match &self.values[i] {
            FastFlagValue::Int(v) => *v,
            _ => {
                proof {
                    assert(false);
                }
                0
            },
        }
    }

    /// Reads a floating-point flag as its bit pattern.
    pub fn get_float(&self, flag: FastFlag) -> (r: FloatBits)
        requires
            self.wf(),
            spec_flag_kind(flag) == FlagKind::Float,
        ensures
            self.value_of(flag) == FastFlagValue::Float(r),
    {
        proof {
            assert(self.value_of(flag).kind() == spec_flag_kind(flag));
        }
        let i = flag.index();
        match &self.values[i] {
            FastFlagValue::Float(v) => *v,
            _ => {
                proof {
                    assert(false);
                }
                FloatBits { bits: 0 }
            },
        }
    }

    /// Reads a text flag.
    pub fn get_string(&self, flag: FastFlag) -> (r: String)
        requires
            self.wf(),
            spec_flag_kind(flag) == FlagKind::Text,
        ensures
            self.value_of(flag) matches FastFlagValue::Str(s) && s@ == r@,
    {
        proof {
            assert(self.value_of(flag).kind() == spec_flag_kind(flag));
        }
        let i = flag.index();
        match &self.values[i] {
            FastFlagValue::Str(s) => s.clone(),
            _ => {
                proof {
                    assert(false);
                }
                String::new()
            },
        }
    }

    /// Writes a boolean flag.
    pub fn set_bool(&mut self, flag: FastFlag, v: bool)
        requires
            old(self).wf(),
            spec_flag_kind(flag) == FlagKind::Bool,
        ensures
            final (self).wf(),
            final (self).values() == old(self).values().update(
                spec_flag_index(flag),
                FastFlagValue::Bool(v),
            ),
    {
        let i = flag.index();
        self.values[i] = FastFlagValue::Bool(v);
        proof {
            lemma_store_update_wf(*old(self), *self, flag, FastFlagValue::Bool(v));
        }
    }

    /// Writes an integer flag.
    pub fn set_int(&mut self, flag: FastFlag, v: i64)
        requires
            old(self).wf(),
            spec_flag_kind(flag) == FlagKind::Int,
        ensures
            final (self).wf(),
            final (self).values() == old(self).values().update(
                spec_flag_index(flag),
                FastFlagValue::Int(v),
            ),
    {
        let i = flag.index();
        self.values[i] = FastFlagValue::Int(v);
        proof {
            lemma_store_update_wf(*old(self), *self, flag, FastFlagValue::Int(v));
        }
    }

    /// Writes a floating-point flag from its bit pattern.
    pub fn set_float(&mut self, flag: FastFlag, v: FloatBits)
        requires
            old(self).wf(),
            spec_flag_kind(flag) == FlagKind::Float,
        ensures
            final (self).wf(),
            final (self).values() == old(self).values().update(
                spec_flag_index(flag),
                FastFlagValue::Float(v),
            ),
    {
        let i = flag.index();
        self.values[i] = FastFlagValue::Float(v);
        proof {
            lemma_store_update_wf(*old(self), *self, flag, FastFlagValue::Float(v));
        }
    }

    /// Writes a text flag.
    pub fn set_string(&mut self, flag: FastFlag, v: String)
        requires
            old(self).wf(),
            spec_flag_kind(flag) == FlagKind::Text,
        ensures
            final (self).wf(),
            final (self).values() == old(self).values().update(
                spec_flag_index(flag),
                FastFlagValue::Str(v),
            ),
    {
        let i = flag.index();
        let ghost stored = FastFlagValue::Str(v);
        self.values[i] = FastFlagValue::Str(v);
        proof {
            lemma_store_update_wf(*old(self), *self, flag, stored);
        }
    }

    /// Writes one flag from a tagged value.
    pub fn set_value(&mut self, flag: FastFlag, v: FastFlagValue)
        requires
            old(self).wf(),
            v.kind() == spec_flag_kind(flag),
        ensures
            final (self).wf(),
            final (self).values() == old(self).values().update(spec_flag_index(flag), v),
    {
        let i = flag.index();
        let ghost stored = v;
        self.values[i] = v;
        proof {
            lemma_store_update_wf(*old(self), *self, flag, stored);
        }
    }

    /// Replays an initialization table over the store, first entry first.
    pub fn initialize_with_table(&mut self, table: Vec<(FastFlag, FastFlagValue)>)
        requires
            old(self).wf(),
            forall|i: int|
                0 <= i < table@.len() ==> (#[trigger] table@[i].1).kind() == spec_flag_kind(
                    table@[i].0,
                ),
        ensures
            final (self).wf(),
            final (self).values() == spec_apply_table(old(self).values(), table@),
    {
        let ghost table_view = table@;
        let ghost initial = self.values();
        let mut table = table;
        while table.len() > 0
            invariant
                self.wf(),
                forall|i: int|
                    0 <= i < table@.len() ==> (#[trigger] table@[i].1).kind() == spec_flag_kind(
                        table@[i].0,
                    ),
                spec_apply_table(self.values(), table@) == spec_apply_table(initial, table_view),
            decreases table.len(),
        {
            let ghost remaining = table@;
            let (flag, value) = table.remove(0);
            proof {
                assert(remaining[0] == (flag, value));
                assert(table@ =~= remaining.drop_first());
            }
            self.set_value(flag, value);
        }
    }

    /// Reads one flag as a tagged value.
    pub fn get_flag_value(&self, flag: FastFlag) -> (r: FastFlagValue)
        requires
            self.wf(),
        ensures
            spec_value_like(self.value_of(flag), r),
    {
        let i = flag.index();
        match &self.values[i] {
            FastFlagValue::Bool(b) => FastFlagValue::Bool(*b),
            FastFlagValue::Int(v) => FastFlagValue::Int(*v),
            FastFlagValue::Float(v) => FastFlagValue::Float(*v),
            FastFlagValue::Str(s) => FastFlagValue::Str(s.clone()),
        }
    }
}

/// Two flag values that agree: equal, except that text is compared by view
/// rather than by allocation.
pub open spec fn spec_value_like(a: FastFlagValue, b: FastFlagValue) -> bool {
    match a {
        FastFlagValue::Str(s) => b matches FastFlagValue::Str(t) && s@ == t@,
        _ => b == a,
    }
}

proof fn lemma_store_update_wf(
    before: FastFlags,
    after: FastFlags,
    flag: FastFlag,
    v: FastFlagValue,
)
    requires
        before.wf(),
        v.kind() == spec_flag_kind(flag),
        after.values() == before.values().update(spec_flag_index(flag), v),
    ensures
        after.wf(),
{
    assert forall|f: FastFlag| (#[trigger] after.value_of(f)).kind() == spec_flag_kind(f) by {
        if spec_flag_index(f) == spec_flag_index(flag) {
            assert(after.value_of(f) == v);
            assert(spec_flag_kind(f) == spec_flag_kind(flag));
        } else {
            assert(after.value_of(f) == before.value_of(f));
        }
    }
}

} // verus!
