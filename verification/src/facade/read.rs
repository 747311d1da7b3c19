//! Read-only consumer checks for HUD / UI / AI.
use crate::combatant::cooldown::{ready_in, Cooldowns};
use crate::events::CastRejectReason;
use crate::ids::EntityBits;
use crate::timeline::advance::{verdict_spec, CastChecks, CastVerdict};
use vstd::prelude::*;

verus! {

/// The answer [`can_cast`] gives.
pub open spec fn can_cast_spec(skill_known: bool, has_attributes: bool, can_afford: bool, cooldown_ready: bool) -> Result<(), CastRejectReason> {
    if !skill_known {
        Err(CastRejectReason::UnknownSkill)
    } else if !has_attributes {
        Err(CastRejectReason::NoTarget)
    } else if !can_afford {
        Err(CastRejectReason::InsufficientMana)
    } else if !cooldown_ready {
        Err(CastRejectReason::OnCooldown)
    } else {
        Ok(())
    }
}

/// Can `e` begin casting `skill_id` right now? The skill must be known, `e` must have a stat
/// block, be able to pay for the skill (`can_afford`), and be off cooldown. Range and line of
/// sight need a target and are checked when the cast is requested.
pub fn can_cast(
    cooldowns: &Cooldowns,
    e: EntityBits,
    skill_id: &str,
    skill_known: bool,
    has_attributes: bool,
    can_afford: bool,
) -> (r: Result<(), CastRejectReason>)
    requires
        cooldowns.wf(),
    ensures
        r == can_cast_spec(skill_known, has_attributes, can_afford, ready_in(cooldowns@, e, skill_id@)),
        r is Ok <==> (skill_known && has_attributes && can_afford && ready_in(cooldowns@, e, skill_id@)),
        skill_known && !has_attributes ==> r == Err::<(), CastRejectReason>(CastRejectReason::NoTarget),
{
    if !skill_known {
        return Err(CastRejectReason::UnknownSkill);
    }
    if !has_attributes {
        return Err(CastRejectReason::NoTarget);
    }
    if !can_afford {
        return Err(CastRejectReason::InsufficientMana);
    }
    if !cooldowns.is_ready(e, skill_id) {
        return Err(CastRejectReason::OnCooldown);
    }
    Ok(())
}

/// The read facade agrees with cast admission: for a caster that is not already casting, whose
/// skill's timeline is loaded and who has a stat block, every refusal `can_cast` reports is the
/// refusal a cast request would get, and a request `can_cast` clears is not refused for an
/// unknown skill, mana, or cooldown.
pub proof fn lemma_can_cast_agrees_with_admission(c: CastChecks)
    requires
        !c.already_casting,
        c.timeline_loaded,
        c.has_attributes,
    ensures
        can_cast_spec(c.skill_known, c.has_attributes, c.can_afford, c.cooldown_ready) matches Err(reason) ==>
            verdict_spec(c) == CastVerdict::Reject(reason),
        can_cast_spec(c.skill_known, c.has_attributes, c.can_afford, c.cooldown_ready) is Ok ==> {
            &&& verdict_spec(c) != CastVerdict::Reject(CastRejectReason::UnknownSkill)
            &&& verdict_spec(c) != CastVerdict::Reject(CastRejectReason::InsufficientMana)
            &&& verdict_spec(c) != CastVerdict::Reject(CastRejectReason::OnCooldown)
        },
{
}

/// What the HUD check answers: a cast is possible exactly when the skill is known, the caster
/// has a stat block, can pay, and is off cooldown. Otherwise the first failing check, in that
/// order, names the refusal: an unknown skill; no stat block (reported as no target); not
/// enough mana; on cooldown.
pub proof fn lemma_can_cast_answers(skill_known: bool, has_attributes: bool, can_afford: bool, cooldown_ready: bool)
    ensures
        can_cast_spec(skill_known, has_attributes, can_afford, cooldown_ready) is Ok
            <==> (skill_known && has_attributes && can_afford && cooldown_ready),
        !skill_known ==> can_cast_spec(skill_known, has_attributes, can_afford, cooldown_ready)
            == Err::<(), CastRejectReason>(CastRejectReason::UnknownSkill),
        skill_known && !has_attributes ==> can_cast_spec(skill_known, has_attributes, can_afford, cooldown_ready)
            == Err::<(), CastRejectReason>(CastRejectReason::NoTarget),
        skill_known && has_attributes && !can_afford ==> can_cast_spec(skill_known, has_attributes, can_afford, cooldown_ready)
            == Err::<(), CastRejectReason>(CastRejectReason::InsufficientMana),
        skill_known && has_attributes && can_afford && !cooldown_ready
            ==> can_cast_spec(skill_known, has_attributes, can_afford, cooldown_ready)
            == Err::<(), CastRejectReason>(CastRejectReason::OnCooldown),
{
}

} // verus!
