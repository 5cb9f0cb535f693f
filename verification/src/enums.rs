//! The closed enumerations exposed to scripts. Each is a plain value type;
//! the interpreter-facing registration of these enumerations lives with the
//! host, outside the verified runtime.

use vstd::prelude::*;

verus! {

/// How avatars are unified across clients.
#[derive(Copy, Clone, PartialEq, Eq, Structural, Debug)]
pub enum AvatarUnificationMode {
    Default,
    Disabled,
    Enabled,
}

/// Whether animation throttling is applied on clients.
#[derive(Copy, Clone, PartialEq, Eq, Structural, Debug)]
pub enum ClientAnimatorThrottlingMode {
    Default,
    Disabled,
    Enabled,
}

/// The severity class of a log entry.
#[derive(Copy, Clone, PartialEq, Eq, Structural, Debug)]
pub enum MessageType {
    MessageOutput,
    MessageInfo,
    MessageWarning,
    MessageError,
}

/// How models pick their level of detail when streaming.
#[derive(Copy, Clone, PartialEq, Eq, Structural, Debug)]
pub enum ModelLevelOfDetail {
    Automatic,
    StreamingMesh,
    Disabled,
}

/// How model streaming interacts with legacy behavior.
#[derive(Copy, Clone, PartialEq, Eq, Structural, Debug)]
pub enum ModelStreamingBehavior {
    Default,
    Legacy,
    Improved,
}

/// How a model is streamed in and out.
#[derive(Copy, Clone, PartialEq, Eq, Structural, Debug)]
pub enum ModelStreamingMode {
    Default,
    Atomic,
    Persistent,
    PersistentPerPlayer,
    Nonatomic,
}

/// How the physics pipeline advances time.
#[derive(Copy, Clone, PartialEq, Eq, Structural, Debug)]
pub enum PhysicsSteppingMethod {
    Default,
    Fixed,
    Adaptive,
}

/// Whether a player's character is destroyed on removal.
#[derive(Copy, Clone, PartialEq, Eq, Structural, Debug)]
pub enum PlayerCharacterDestroyBehavior {
    Default,
    Disabled,
    Enabled,
}

/// Whether rendering caches are optimized.
#[derive(Copy, Clone, PartialEq, Eq, Structural, Debug)]
pub enum RenderingCacheOptimizationMode {
    Default,
    Disabled,
    Enabled,
}

/// Whether instance destruction is replicated.
#[derive(Copy, Clone, PartialEq, Eq, Structural, Debug)]
pub enum ReplicateInstanceDestroySetting {
    Default,
    Disabled,
    Enabled,
}

/// The axis order used when composing rotations.
#[derive(Copy, Clone, PartialEq, Eq, Structural, Debug)]
pub enum RotationOrder {
    XYZ,
    XZY,
    YZX,
    YXZ,
    ZXY,
    ZYX,
}

/// Where a script is allowed to run.
#[derive(Copy, Clone, PartialEq, Eq, Structural, Debug)]
pub enum RunContext {
    Legacy,
    Server,
    Client,
    Plugin,
}

impl Default for RunContext {
    /// The legacy run context, in which the script's placement decides where
    /// it runs.
    fn default() -> (r: Self)
        ensures
            r == RunContext::Legacy,
    {
        RunContext::Legacy
    }
}

/// When connected signal handlers observe a fired signal.
#[derive(Copy, Clone, PartialEq, Eq, Structural, Debug)]
pub enum SignalBehavior {
    Default,
    Immediate,
    Deferred,
    AncestryDeferred,
}

/// When streamed-in content is streamed back out.
#[derive(Copy, Clone, PartialEq, Eq, Structural, Debug)]
pub enum StreamOutBehavior {
    Default,
    LowMemory,
    Opportunistic,
}

/// How strictly streaming preserves simulation integrity.
#[derive(Copy, Clone, PartialEq, Eq, Structural, Debug)]
pub enum StreamingIntegrityMode {
    Default,
    Disabled,
    MinimumRadiusPause,
    PauseOutsideLoadedArea,
}

} // verus!
