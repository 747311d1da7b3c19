//! Gameplay outcome kinds shared by the simulation's rules.
use vstd::prelude::*;

verus! {

/// Why a cast request was refused.
#[derive(Clone, Copy, Debug, PartialEq, Eq, Structural)]
pub enum CastRejectReason {
    UnknownSkill,
    TimelineMissing,
    InsufficientMana,
    ConditionNotMet,
    OutOfRange,
    NoTarget,
    NoLineOfSight,
    OnCooldown,
    AlreadyCasting,
}

/// Why a hitbox terminated. When several apply on the same step the priority is
/// `HitEntity > HitWorld > Fuse`.
#[derive(Clone, Copy, Debug, PartialEq, Eq, Structural)]
pub enum EndReason {
    /// Terminal entity hit (a `FirstOnly` hitbox after its single confirm).
    HitEntity,
    /// The host reported a world impact.
    HitWorld,
    /// The window's active duration elapsed.
    Fuse,
}

/// When a presentation cue fired.
#[derive(Clone, Copy, Debug, PartialEq, Eq, Structural)]
pub enum CueKind {
    OnCast,
    OnWindow,
    OnHit,
    /// A window ended (any [`EndReason`]).
    OnEnd,
    /// An emitter instantiated a `Template` window (instead of `OnWindow`).
    OnEmit,
}

} // verus!
