//! Cast admission: the ordered checks a cast request passes before it begins, and what beginning
//! a cast records.
use crate::combatant::cooldown::{ready_in, Cooldowns};
use crate::events::CastRejectReason;
use crate::ids::EntityBits;
use crate::timeline::state::{ActiveCast, SkillPhase};
use crate::units::Micros;
use vstd::prelude::*;

verus! {

/// The facts cast admission decides on, each established by the host for one pending request.
#[derive(Clone, Copy, Debug)]
pub struct CastChecks {
    /// The caster already has a cast in flight.
    pub already_casting: bool,
    /// The skill is in the skill registry.
    pub skill_known: bool,
    /// The skill's timeline handle is registered and its asset loaded.
    pub timeline_loaded: bool,
    /// The caster has a stat block.
    pub has_attributes: bool,
    /// The caster can pay for and satisfy the skill's use conditions.
    pub can_afford: bool,
    /// The skill is off cooldown for the caster.
    pub cooldown_ready: bool,
    /// An entity aim resolves to a placed entity (always true for point/direction aims).
    pub target_found: bool,
    /// The aimed point lies within the skill's range (always true when there is no range limit).
    pub in_range: bool,
    /// Nothing but the target blocks the line from the caster (always true for non-entity aims).
    pub line_of_sight: bool,
}

/// The admission decision for one request.
#[derive(Clone, Copy, Debug, PartialEq, Eq, Structural)]
pub enum CastVerdict {
    /// Refused with a reason (a `CastRejected` event).
    Reject(CastRejectReason),
    /// Dropped silently: the caster has no stat block.
    Skip,
    /// The cast begins.
    Begin,
}

/// Cast admission: the first failing check, in order, decides; a request passing every check begins.
pub open spec fn verdict_spec(c: CastChecks) -> CastVerdict {
    if c.already_casting {
        CastVerdict::Reject(CastRejectReason::AlreadyCasting)
    } else if !c.skill_known {
        CastVerdict::Reject(CastRejectReason::UnknownSkill)
    } else if !c.timeline_loaded {
        CastVerdict::Reject(CastRejectReason::TimelineMissing)
    } else if !c.has_attributes {
        CastVerdict::Skip
    } else if !c.can_afford {
        CastVerdict::Reject(CastRejectReason::InsufficientMana)
    } else if !c.cooldown_ready {
        CastVerdict::Reject(CastRejectReason::OnCooldown)
    } else if !c.target_found {
        CastVerdict::Reject(CastRejectReason::NoTarget)
    } else if !c.in_range {
        CastVerdict::Reject(CastRejectReason::OutOfRange)
    } else if !c.line_of_sight {
        CastVerdict::Reject(CastRejectReason::NoLineOfSight)
    } else {
        CastVerdict::Begin
    }
}

/// Decide a pending cast request (see [`verdict_spec`]).
pub fn validate_cast(c: &CastChecks) -> (r: CastVerdict)
    ensures
        r == verdict_spec(*c),
{
    if c.already_casting {
        CastVerdict::Reject(CastRejectReason::AlreadyCasting)
    } else if !c.skill_known {
        CastVerdict::Reject(CastRejectReason::UnknownSkill)
    } else if !c.timeline_loaded {
        CastVerdict::Reject(CastRejectReason::TimelineMissing)
    } else if !c.has_attributes {
        CastVerdict::Skip
    } else if !c.can_afford {
        CastVerdict::Reject(CastRejectReason::InsufficientMana)
    } else if !c.cooldown_ready {
        CastVerdict::Reject(CastRejectReason::OnCooldown)
    } else if !c.target_found {
        CastVerdict::Reject(CastRejectReason::NoTarget)
    } else if !c.in_range {
        CastVerdict::Reject(CastRejectReason::OutOfRange)
    } else if !c.line_of_sight {
        CastVerdict::Reject(CastRejectReason::NoLineOfSight)
    } else {
        CastVerdict::Begin
    }
}

/// Begin an accepted cast: a fresh [`ActiveCast`] with the effective phase durations, and the
/// skill's cooldown started when it is positive. Returns the cast and whether a cooldown began.
pub fn begin_cast(
    cooldowns: &mut Cooldowns,
    caster: EntityBits,
    skill_id: &str,
    target: Option<EntityBits>,
    windup: Micros,
    active: Micros,
    recovery: Micros,
    charge: Option<u8>,
    cooldown: Micros,
) -> (r: (ActiveCast, bool))
    requires
        old(cooldowns).wf(),
        i64::MIN <= windup + active <= i64::MAX,
        i64::MIN <= windup + active + recovery <= i64::MAX,
    ensures
        final(cooldowns).wf(),
        final(cooldowns)@ == (if cooldown > 0 { old(cooldowns)@.insert((caster, skill_id@), cooldown) } else { old(cooldowns)@ }),
        r.1 == (cooldown > 0),
        r.0.wf(),
        r.0.skill_id@ == skill_id@,
        r.0.target == target,
        r.0.phase == SkillPhase::Windup,
        r.0.elapsed == 0,
        r.0.windup == windup && r.0.active == active && r.0.recovery == recovery,
        r.0.fired_windows@.len() == 0,
        r.0.charge == charge,
{
    let cast = ActiveCast::begin(skill_id.to_owned(), target, windup, active, recovery, charge);
    cooldowns.start(caster, skill_id, cooldown);
    (cast, cooldown > 0)
}

/// A request for a skill whose cooldown was just started by an accepted cast is refused with
/// `OnCooldown` (as long as it passes the earlier checks).
pub proof fn lemma_cooldown_blocks_recast(
    m: Map<(EntityBits, Seq<char>), Micros>,
    caster: EntityBits,
    skill: Seq<char>,
    cooldown: Micros,
    c: CastChecks,
)
    requires
        cooldown > 0,
        c.cooldown_ready == ready_in(m.insert((caster, skill), cooldown), caster, skill),
        !c.already_casting,
        c.skill_known,
        c.timeline_loaded,
        c.has_attributes,
        c.can_afford,
    ensures
        verdict_spec(c) == CastVerdict::Reject(CastRejectReason::OnCooldown),
{
}

} // verus!
