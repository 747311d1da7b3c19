//! Aim acquisition: checking a resolved aim against a timeline's acquisition tree, walking
//! fallback chains, and deciding the cast point.
use crate::assets::{AcqFallback, Acquisition, HitFilter};
use crate::combatant::components::Faction;
use crate::events::CastRejectReason;
use crate::spatial::filter::{filter_admits, passes_filter};
use crate::units::Fixed;
use vstd::prelude::*;

verus! {

/// The kind of a resolved aim.
#[derive(Clone, Copy, Debug, PartialEq, Eq, Structural)]
pub enum AimKind {
    Entity,
    Point,
    Direction,
}

/// What acquisition reads of a resolved aim, as the host measured it.
#[derive(Clone, Copy, Debug)]
pub struct AimFacts {
    pub kind: AimKind,
    /// Distance from the caster to the aimed entity or point (unused for a direction).
    pub distance: Fixed,
    pub caster_faction: Faction,
    /// The aimed entity's faction (entity aims).
    pub target_faction: Faction,
    /// The aimed entity is the caster itself (entity aims).
    pub target_is_caster: bool,
}

/// Where an accepted cast's cast point is.
#[derive(Clone, Copy, Debug, PartialEq, Eq, Structural)]
pub enum CastPoint {
    /// The cast has no cast point.
    NoPoint,
    /// The caster's own position.
    Caster,
    /// The aimed point.
    Aimed,
}

/// The outcome of acquisition: the cast point when accepted, or the reason the last attempted
/// branch failed when the chain ends in `Fizzle`.
pub open spec fn acquire_spec(a: Acquisition, f: AimFacts) -> Result<CastPoint, CastRejectReason>
    decreases a,
{
    match a {
        Acquisition::Aim => Ok(CastPoint::NoPoint),
        Acquisition::SelfPoint => Ok(CastPoint::Caster),
        Acquisition::HitscanEntity { range, filter, fallback } => {
            if f.kind == AimKind::Entity && f.distance <= range
                && filter_admits(filter, f.caster_faction, f.target_faction, f.target_is_caster) {
                Ok(CastPoint::NoPoint)
            } else {
                let why = if f.kind == AimKind::Entity && f.distance > range {
                    CastRejectReason::OutOfRange
                } else {
                    CastRejectReason::NoTarget
                };
                fallback_spec(fallback, f, why)
            }
        },
        Acquisition::GroundPoint { range, fallback } => {
            if f.kind == AimKind::Point && f.distance <= range {
                Ok(CastPoint::Aimed)
            } else {
                let why = if f.kind == AimKind::Point {
                    CastRejectReason::OutOfRange
                } else {
                    CastRejectReason::NoTarget
                };
                fallback_spec(fallback, f, why)
            }
        },
    }
}

/// A failed branch's fallback: `Fizzle` rejects with the branch's reason; `Then` re-checks the
/// same aim against the next node.
pub open spec fn fallback_spec(fb: AcqFallback, f: AimFacts, why: CastRejectReason) -> Result<CastPoint, CastRejectReason>
    decreases fb,
{
    match fb {
        AcqFallback::Fizzle => Err(why),
        AcqFallback::Then(next) => acquire_spec(*next, f),
    }
}

/// Check a resolved aim against an acquisition tree (see [`acquire_spec`]).
pub fn acquire(a: &Acquisition, f: &AimFacts) -> (r: Result<CastPoint, CastRejectReason>)
    ensures
        r == acquire_spec(*a, *f),
    decreases a,
{
    match a {
        Acquisition::Aim => Ok(CastPoint::NoPoint),
        Acquisition::SelfPoint => Ok(CastPoint::Caster),
        Acquisition::HitscanEntity { range, filter, fallback } => {
            if f.kind == AimKind::Entity && f.distance <= *range
                && passes_filter(*filter, f.caster_faction, f.target_faction, f.target_is_caster) {
                Ok(CastPoint::NoPoint)
            } else {
                let why = if f.kind == AimKind::Entity && f.distance > *range {
                    CastRejectReason::OutOfRange
                } else {
                    CastRejectReason::NoTarget
                };
                fall_back(fallback, f, why)
            }
        },
        Acquisition::GroundPoint { range, fallback } => {
            if f.kind == AimKind::Point && f.distance <= *range {
                Ok(CastPoint::Aimed)
            } else {
                let why = if f.kind == AimKind::Point {
                    CastRejectReason::OutOfRange
                } else {
                    CastRejectReason::NoTarget
                };
                fall_back(fallback, f, why)
            }
        },
    }
}

fn fall_back(fb: &AcqFallback, f: &AimFacts, why: CastRejectReason) -> (r: Result<CastPoint, CastRejectReason>)
    ensures
        r == fallback_spec(*fb, *f, why),
    decreases fb,
{
    match fb {
        AcqFallback::Fizzle => Err(why),
        AcqFallback::Then(next) => acquire(next, f),
    }
}

/// The load-time reachability check agrees with acquisition: a tree that
/// [`crate::assets::can_produce_point`] rules out never yields a cast point, whatever the aim.
pub proof fn lemma_no_point_without_producer(a: Acquisition, f: AimFacts)
    ensures
        !crate::assets::can_produce_point(a) ==> acquire_spec(a, f) != Ok::<CastPoint, CastRejectReason>(CastPoint::Caster)
            && acquire_spec(a, f) != Ok::<CastPoint, CastRejectReason>(CastPoint::Aimed),
    decreases a,
{
    match a {
        Acquisition::HitscanEntity { range, filter, fallback } => {
            match fallback {
                AcqFallback::Then(next) => {
                    lemma_no_point_without_producer(*next, f);
                },
                AcqFallback::Fizzle => {},
            }
        },
        _ => {},
    }
}

/// How each node treats an aim. `Aim` accepts with no cast point and `SelfPoint` accepts at the
/// caster, whatever the aim. A `HitscanEntity` node accepts an entity aim within its range that
/// its filter admits; a `GroundPoint` node accepts a point aim within its range, at that point.
/// A node that does not accept hands the very same aim to its fallback: with `Then(next)` the
/// answer is exactly `next`'s answer, and with `Fizzle` the cast is refused, out of range when
/// an aim of the right kind was too far and for want of a target otherwise.
pub proof fn lemma_acquisition_nodes(a: Acquisition, f: AimFacts)
    ensures
        a is Aim ==> acquire_spec(a, f) == Ok::<CastPoint, CastRejectReason>(CastPoint::NoPoint),
        a is SelfPoint ==> acquire_spec(a, f) == Ok::<CastPoint, CastRejectReason>(CastPoint::Caster),
        a matches Acquisition::GroundPoint { range, fallback } ==> {
            if f.kind == AimKind::Point && f.distance <= range {
                acquire_spec(a, f) == Ok::<CastPoint, CastRejectReason>(CastPoint::Aimed)
            } else {
                match fallback {
                    AcqFallback::Then(next) => acquire_spec(a, f) == acquire_spec(*next, f),
                    AcqFallback::Fizzle => acquire_spec(a, f) == Err::<CastPoint, CastRejectReason>(
                        if f.kind == AimKind::Point { CastRejectReason::OutOfRange } else { CastRejectReason::NoTarget }),
                }
            }
        },
        a matches Acquisition::HitscanEntity { range, filter, fallback } ==> {
            if f.kind == AimKind::Entity && f.distance <= range
                && filter_admits(filter, f.caster_faction, f.target_faction, f.target_is_caster) {
                acquire_spec(a, f) == Ok::<CastPoint, CastRejectReason>(CastPoint::NoPoint)
            } else {
                match fallback {
                    AcqFallback::Then(next) => acquire_spec(a, f) == acquire_spec(*next, f),
                    AcqFallback::Fizzle => acquire_spec(a, f) == Err::<CastPoint, CastRejectReason>(
                        if f.kind == AimKind::Entity && f.distance > range {
                            CastRejectReason::OutOfRange
                        } else {
                            CastRejectReason::NoTarget
                        }),
                }
            }
        },
{
}

/// A ground-point skill that falls back to the caster always resolves: at the aimed point when a
/// point within range was aimed, and at the caster for every other aim (an entity, a direction,
/// or a point too far away).
pub proof fn lemma_ground_point_falls_back_to_caster(range: Fixed, f: AimFacts)
    ensures
        acquire_spec(
            Acquisition::GroundPoint { range, fallback: AcqFallback::Then(Box::new(Acquisition::SelfPoint)) },
            f,
        ) == Ok::<CastPoint, CastRejectReason>(
            if f.kind == AimKind::Point && f.distance <= range { CastPoint::Aimed } else { CastPoint::Caster }),
{
    let a = Acquisition::GroundPoint { range, fallback: AcqFallback::Then(Box::new(Acquisition::SelfPoint)) };
    lemma_acquisition_nodes(a, f);
    lemma_acquisition_nodes(Acquisition::SelfPoint, f);
}

} // verus!
