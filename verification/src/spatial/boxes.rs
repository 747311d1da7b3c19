//! Hit and hurt volumes, and the hitbox termination funnel.
use crate::assets::{CollisionWindow, HitFilter, HitMode};
use crate::combatant::components::Faction;
use crate::events::EndReason;
use crate::ids::EntityBits;
use crate::spatial::filter::{filter_admits, passes_filter};
use crate::units::{clamp_i64, sat_add, sat_sub, Micros};
use vstd::prelude::*;

verus! {

/// Defensive volume on a combatant.
#[derive(Clone, Copy, Debug)]
pub struct Hurtbox {
    pub owner: EntityBits,
}

/// Offensive volume spawned from a collision window.
pub struct Hitbox {
    pub caster: EntityBits,
    pub skill_id: String,
    pub window_id: String,
    pub filter: HitFilter,
    pub mode: HitMode,
    /// Time since the hitbox spawned.
    pub age: Micros,
    pub rehit_interval: Option<Micros>,
    /// Time left on the window's fuse.
    pub remaining: Micros,
    /// A `FirstOnly` hitbox has spent its single hit.
    pub done: bool,
    /// `false` for a carrier volume, which never strikes anything.
    pub strikes: bool,
    /// The targets struck so far, each with the hitbox's age at its latest strike.
    pub hit_log: Vec<(EntityBits, Micros)>,
    pub charge: Option<u8>,
    pub is_beam: bool,
    /// The entity a beam strikes, if one was designated.
    pub beam_target: Option<EntityBits>,
    /// Retarget hops that preceded this hitbox.
    pub hop: u8,
    /// Entities earlier hitboxes of the same chain struck.
    pub visited: Vec<EntityBits>,
    /// Trigger-generation depth (0 = a player cast).
    pub depth: u8,
    /// Spawned by an emitter rather than the phase schedule.
    pub emitted: bool,
}

/// What a spawned hitbox inherits beyond its window: who a beam strikes, the chain's hop count
/// and struck entities, and the trigger depth.
pub struct ChainPayload {
    pub beam_target: Option<EntityBits>,
    pub hop: u8,
    pub visited: Vec<EntityBits>,
    pub depth: u8,
}

/// Why the funnel ends a hitbox this step, if it does: a spent `FirstOnly` hit first, then a
/// reported world impact, then a burnt-out fuse.
pub open spec fn end_reason_spec(done: bool, world_hit: bool, remaining: Micros) -> Option<EndReason> {
    if done {
        Some(EndReason::HitEntity)
    } else if world_hit {
        Some(EndReason::HitWorld)
    } else if remaining <= 0 {
        Some(EndReason::Fuse)
    } else {
        None
    }
}

/// Two hitboxes agree on every field but the strike record (the hit log and the spent flag).
pub open spec fn same_but_strikes(a: Hitbox, b: Hitbox) -> bool {
    &&& a.caster == b.caster
    &&& a.skill_id == b.skill_id
    &&& a.window_id == b.window_id
    &&& a.filter == b.filter
    &&& a.mode == b.mode
    &&& a.age == b.age
    &&& a.rehit_interval == b.rehit_interval
    &&& a.remaining == b.remaining
    &&& a.strikes == b.strikes
    &&& a.charge == b.charge
    &&& a.is_beam == b.is_beam
    &&& a.beam_target == b.beam_target
    &&& a.hop == b.hop
    &&& a.visited == b.visited
    &&& a.depth == b.depth
    &&& a.emitted == b.emitted
}

/// The position of the first entry for `t` in `log[i..]`.
pub open spec fn first_entry(log: Seq<(EntityBits, Micros)>, t: EntityBits, i: int) -> Option<int>
    decreases log.len() - i,
{
    if i < 0 || i >= log.len() {
        None
    } else if log[i].0 == t {
        Some(i)
    } else {
        first_entry(log, t, i + 1)
    }
}

/// The hitbox's age when it last struck `t`, if it ever did.
pub open spec fn last_hit(log: Seq<(EntityBits, Micros)>, t: EntityBits) -> Option<Micros> {
    match first_entry(log, t, 0) {
        Some(i) => Some(log[i].1),
        None => None,
    }
}

/// Whether the hit mode lets the hitbox strike `t` now: an `EveryTick` volume always may; a
/// `FirstOnly` volume until its single hit; a `OncePerTarget` volume strikes each target once,
/// or again once its rehit interval (if it has one) has passed since the last strike.
pub open spec fn may_hit(h: Hitbox, t: EntityBits) -> bool {
    match h.mode {
        HitMode::EveryTick => true,
        HitMode::FirstOnly => !h.done,
        HitMode::OncePerTarget => match last_hit(h.hit_log@, t) {
            None => true,
            Some(at) => h.rehit_interval is Some && h.age - at >= h.rehit_interval->0,
        },
    }
}

proof fn lemma_first_entry_push(log: Seq<(EntityBits, Micros)>, x: (EntityBits, Micros), u: EntityBits, i: int)
    requires
        0 <= i <= log.len(),
    ensures
        first_entry(log.push(x), u, i) == (match first_entry(log, u, i) {
            Some(j) => Some(j),
            None => if x.0 == u { Some(log.len() as int) } else { None },
        }),
    decreases log.len() - i,
{
    assert(log.push(x)[log.len() as int] == x);
    if i < log.len() {
        assert(log.push(x)[i] == log[i]);
        lemma_first_entry_push(log, x, u, i + 1);
    } else {
        assert(first_entry(log.push(x), u, i + 1) is None);
    }
}

proof fn lemma_first_entry_set(log: Seq<(EntityBits, Micros)>, k: int, x: (EntityBits, Micros), u: EntityBits, i: int)
    requires
        0 <= k < log.len(),
        log[k].0 == x.0,
        0 <= i <= log.len(),
    ensures
        first_entry(log.update(k, x), u, i) == first_entry(log, u, i),
    decreases log.len() - i,
{
    if i < log.len() {
        lemma_first_entry_set(log, k, x, u, i + 1);
    }
}

proof fn lemma_first_entry_bounds(log: Seq<(EntityBits, Micros)>, u: EntityBits, i: int)
    ensures
        match first_entry(log, u, i) {
            Some(j) => i <= j < log.len() && log[j].0 == u,
            None => true,
        },
    decreases log.len() - i,
{
    if 0 <= i < log.len() {
        lemma_first_entry_bounds(log, u, i + 1);
    }
}

impl Hitbox {
    /// A fresh hitbox for `win`, cast by `caster` for `skill_id`, carrying `payload`.
    pub fn from_window(
        win: &CollisionWindow,
        caster: EntityBits,
        skill_id: &str,
        charge: Option<u8>,
        payload: ChainPayload,
        emitted: bool,
    ) -> (r: Self)
        ensures
            r.caster == caster,
            r.skill_id@ == skill_id@,
            r.window_id@ == win.id@,
            r.filter == win.hit_filter,
            r.mode == win.hit_mode,
            r.age == 0,
            r.rehit_interval == win.rehit_interval,
            r.remaining == win.active_duration,
            !r.done,
            r.strikes == win.strikes,
            r.hit_log@.len() == 0,
            r.charge == charge,
            r.is_beam == win.is_beam,
            r.beam_target == payload.beam_target,
            r.hop == payload.hop,
            r.visited@ == payload.visited@,
            r.depth == payload.depth,
            r.emitted == emitted,
    {
        Hitbox {
            caster,
            skill_id: skill_id.to_owned(),
            window_id: win.id.clone(),
            filter: win.hit_filter,
            mode: win.hit_mode,
            age: 0,
            rehit_interval: win.rehit_interval,
            remaining: win.active_duration,
            done: false,
            strikes: win.strikes,
            hit_log: Vec::new(),
            charge,
            is_beam: win.is_beam,
            beam_target: payload.beam_target,
            hop: payload.hop,
            visited: payload.visited,
            depth: payload.depth,
            emitted,
        }
    }

    /// Whether the hit mode lets this hitbox strike `target` now (see [`may_hit`]).
    pub fn can_hit(&self, target: EntityBits) -> (r: bool)
        ensures
            r == may_hit(*self, target),
    {
        match self.mode {
            HitMode::EveryTick => true,
            HitMode::FirstOnly => !self.done,
            HitMode::OncePerTarget => match self.find_hit(target) {
                None => true,
                Some(i) => match self.rehit_interval {
                    Some(interval) => self.age as i128 - self.hit_log[i].1 as i128 >= interval as i128,
                    None => false,
                },
            },
        }
    }

    fn find_hit(&self, target: EntityBits) -> (r: Option<usize>)
        ensures
            match r {
                Some(i) => first_entry(self.hit_log@, target, 0) == Some(i as int) && i < self.hit_log.len(),
                None => first_entry(self.hit_log@, target, 0) is None,
            },
    {
        let mut i: usize = 0;
        while i < self.hit_log.len()
            invariant
                i <= self.hit_log.len(),
                first_entry(self.hit_log@, target, 0) == first_entry(self.hit_log@, target, i as int),
            decreases self.hit_log.len() - i,
        {
            if self.hit_log[i].0 == target {
                return Some(i);
            }
            i += 1;
        }
        None
    }

    /// Record a strike on `target` at the current age; a `FirstOnly` hitbox is then spent.
    pub fn register_hit(&mut self, target: EntityBits)
        ensures
            last_hit(final(self).hit_log@, target) == Some(old(self).age),
            forall|u: EntityBits| u != target ==> last_hit(final(self).hit_log@, u) == last_hit(old(self).hit_log@, u),
            final(self).done == (old(self).done || old(self).mode == HitMode::FirstOnly),
            same_but_strikes(*final(self), *old(self)),
    {
        let ghost old_log = self.hit_log@;
        let entry = (target, self.age);
        match self.find_hit(target) {
            Some(i) => {
                proof {
                    lemma_first_entry_bounds(old_log, target, 0);
                }
                self.hit_log.set(i, entry);
                proof {
                    assert forall|u: EntityBits| first_entry(self.hit_log@, u, 0) == first_entry(old_log, u, 0) by {
                        lemma_first_entry_set(old_log, i as int, entry, u, 0);
                    }
                    assert forall|u: EntityBits| u != target implies last_hit(self.hit_log@, u) == last_hit(old_log, u) by {
                        lemma_first_entry_bounds(old_log, u, 0);
                    }
                }
            },
            None => {
                self.hit_log.push(entry);
                proof {
                    assert forall|u: EntityBits| first_entry(self.hit_log@, u, 0) == (match first_entry(old_log, u, 0) {
                        Some(j) => Some(j),
                        None => if entry.0 == u { Some(old_log.len() as int) } else { None },
                    }) by {
                        lemma_first_entry_push(old_log, entry, u, 0);
                    }
                    assert forall|u: EntityBits| u != target implies last_hit(self.hit_log@, u) == last_hit(old_log, u) by {
                        if let Some(j) = first_entry(old_log, u, 0) {
                            assert(self.hit_log@[j] == old_log[j]) by {
                                assert(0 <= j < old_log.len()) by {
                                    lemma_first_entry_bounds(old_log, u, 0);
                                }
                            }
                        }
                    }
                }
            },
        }
        if self.mode == HitMode::FirstOnly {
            self.done = true;
        }
    }

    /// The overlap strike: a striking, non-beam hitbox whose hit mode allows `target`, and
    /// whose filter admits it (the factions as resolved by the host), strikes it and records
    /// the strike. Returns whether it struck; the hitbox is unchanged when it did not.
    pub fn try_strike(&mut self, target: EntityBits, caster_faction: Faction, target_faction: Faction) -> (r: bool)
        ensures
            r == (old(self).strikes && !old(self).is_beam && may_hit(*old(self), target)
                && filter_admits(old(self).filter, caster_faction, target_faction, target == old(self).caster)),
            r ==> last_hit(final(self).hit_log@, target) == Some(old(self).age),
            r ==> final(self).done == (old(self).done || old(self).mode == HitMode::FirstOnly),
            r ==> forall|u: EntityBits| u != target ==> last_hit(final(self).hit_log@, u) == last_hit(old(self).hit_log@, u),
            r ==> same_but_strikes(*final(self), *old(self)),
            !r ==> *final(self) == *old(self),
    {
        if !self.strikes || self.is_beam || !self.can_hit(target) {
            return false;
        }
        if !passes_filter(self.filter, caster_faction, target_faction, target == self.caster) {
            return false;
        }
        self.register_hit(target);
        true
    }

    /// The beam strike on its designated target: an unspent beam with a target that is still
    /// present (`target_present`), allowed by the hit mode and admitted by the filter, strikes
    /// it. Returns the struck target; the hitbox is unchanged when nothing is struck.
    pub fn beam_strike(&mut self, target_present: bool, caster_faction: Faction, target_faction: Faction) -> (r: Option<EntityBits>)
        ensures
            r == (if old(self).is_beam && !old(self).done && old(self).beam_target is Some
                && may_hit(*old(self), old(self).beam_target->0) && target_present
                && filter_admits(old(self).filter, caster_faction, target_faction,
                    old(self).beam_target->0 == old(self).caster) {
                old(self).beam_target
            } else {
                None::<EntityBits>
            }),
            r is Some ==> last_hit(final(self).hit_log@, r->0) == Some(old(self).age),
            r is Some ==> final(self).done == (old(self).done || old(self).mode == HitMode::FirstOnly),
            r is Some ==> forall|u: EntityBits| u != r->0 ==> last_hit(final(self).hit_log@, u) == last_hit(old(self).hit_log@, u),
            r is Some ==> same_but_strikes(*final(self), *old(self)),
            r is None ==> *final(self) == *old(self),
    {
        if !self.is_beam || self.done {
            return None;
        }
        let target = match self.beam_target {
            Some(t) => t,
            None => {
                return None;
            },
        };
        if !self.can_hit(target) || !target_present {
            return None;
        }
        if !passes_filter(self.filter, caster_faction, target_faction, target == self.caster) {
            return None;
        }
        self.register_hit(target);
        Some(target)
    }

    /// One step of the termination funnel: ages the hitbox by `dt`, burns `dt` off its fuse, and
    /// returns the reason it ends now (see [`end_reason_spec`]), or `None` if it lives on.
    /// `world_hit` says the host reported a world impact for it.
    pub fn end_step(&mut self, dt: Micros, world_hit: bool) -> (r: Option<EndReason>)
        ensures
            final(self).age == clamp_i64(old(self).age + dt),
            final(self).remaining == clamp_i64(old(self).remaining - dt),
            final(self).done == old(self).done,
            final(self).caster == old(self).caster,
            final(self).skill_id == old(self).skill_id,
            final(self).window_id == old(self).window_id,
            final(self).charge == old(self).charge,
            final(self).depth == old(self).depth,
            final(self).filter == old(self).filter,
            final(self).mode == old(self).mode,
            final(self).rehit_interval == old(self).rehit_interval,
            final(self).strikes == old(self).strikes,
            final(self).hit_log == old(self).hit_log,
            final(self).is_beam == old(self).is_beam,
            final(self).beam_target == old(self).beam_target,
            final(self).hop == old(self).hop,
            final(self).visited == old(self).visited,
            final(self).emitted == old(self).emitted,
            r == end_reason_spec(old(self).done, world_hit, final(self).remaining),
    {
        self.age = sat_add(self.age, dt);
        self.remaining = sat_sub(self.remaining, dt);
        if self.done {
            Some(EndReason::HitEntity)
        } else if world_hit {
            Some(EndReason::HitWorld)
        } else if self.remaining <= 0 {
            Some(EndReason::Fuse)
        } else {
            None
        }
    }
}

/// Every hitbox whose fuse has burnt out ends, with exactly one reason; a live, unspent,
/// unstruck hitbox with fuse left does not.
pub proof fn lemma_fuse_ends_hitbox(done: bool, world_hit: bool, remaining: Micros)
    ensures
        remaining <= 0 ==> end_reason_spec(done, world_hit, remaining) is Some,
        (!done && !world_hit && remaining > 0) ==> end_reason_spec(done, world_hit, remaining) is None,
        done ==> end_reason_spec(done, world_hit, remaining) == Some(EndReason::HitEntity),
        (!done && world_hit) ==> end_reason_spec(done, world_hit, remaining) == Some(EndReason::HitWorld),
{
}

/// The hit modes' promises: a spent `FirstOnly` hitbox strikes nothing more; a `OncePerTarget`
/// hitbox without a rehit interval never strikes a target twice, and with one strikes a target
/// again exactly once the interval has passed since its last strike; an `EveryTick` hitbox may
/// strike every tick.
pub proof fn lemma_hit_modes(h: Hitbox, t: EntityBits)
    ensures
        h.mode == HitMode::FirstOnly && h.done ==> !may_hit(h, t),
        h.mode == HitMode::OncePerTarget && h.rehit_interval is None && last_hit(h.hit_log@, t) is Some
            ==> !may_hit(h, t),
        h.mode == HitMode::OncePerTarget && h.rehit_interval is Some && last_hit(h.hit_log@, t) is Some
            ==> (may_hit(h, t) <==> h.age - last_hit(h.hit_log@, t)->0 >= h.rehit_interval->0),
        h.mode == HitMode::EveryTick ==> may_hit(h, t),
{
}

} // verus!
