//! Standing payloads: what a surface does to the combatants standing in it, tick by tick.
use crate::assets::HitFilter;
use crate::combatant::components::Faction;
use crate::ids::EntityBits;
use crate::spatial::filter::{filter_admits, passes_filter};
use crate::surfaces::clocks::{contains_entity, DueClocks, StandingKey};
use crate::surfaces::types::{StandingFilter, StandingPayload, SurfaceRegistry, SurfaceType};
use crate::units::{clamp_i64, sat_add, Micros};
use vstd::prelude::*;

verus! {

/// A combatant inside a patch this tick, with what the standing rule reads of both.
pub struct Overlap {
    pub patch: EntityBits,
    pub victim: EntityBits,
    /// The patch's surface type.
    pub surface: String,
    /// The painter.
    pub owner: EntityBits,
    /// The painter's faction when it painted.
    pub owner_faction: Faction,
    pub victim_faction: Faction,
}

/// A standing payload that fires this tick on the victim of overlap `overlap`.
pub struct StandingFire {
    pub overlap: usize,
    /// Effect to apply or refresh on the victim.
    pub effect: Option<String>,
    /// Triggered-only skill to execute at the victim, attributed to the painter.
    pub tick_skill: Option<String>,
}

/// The standing rule's memory between ticks: the rehit clocks, and which (patch, victim)
/// pairs were inside last tick (for enter edges).
pub struct StandingState {
    pub next_due: DueClocks,
    pub inside_prev: Vec<(EntityBits, EntityBits)>,
}

/// The hit filter a standing filter means.
pub open spec fn standing_hit_filter(f: StandingFilter) -> HitFilter {
    match f {
        StandingFilter::Enemies => HitFilter::Enemies,
        StandingFilter::Allies => HitFilter::Allies,
        StandingFilter::All => HitFilter::All,
    }
}

/// The standing payload of surface type `s`, if it is registered and has one.
pub open spec fn payload_of(reg: Map<Seq<char>, SurfaceType>, s: Seq<char>) -> Option<StandingPayload> {
    if reg.contains_key(s) { reg[s].standing } else { None }
}

/// The keys listed in `v`.
pub open spec fn key_set(v: Seq<(EntityBits, String)>) -> Set<StandingKey> {
    Set::new(|k: StandingKey| exists|i: int| 0 <= i < v.len() && v[i].0 == k.0 && v[i].1@ == k.1)
}

/// `o` with its string viewed.
pub open spec fn opt_view(o: Option<String>) -> Option<Seq<char>> {
    match o {
        Some(s) => Some(s@),
        None => None,
    }
}

/// One overlap of the standing rule, in state (`due`, `fired`): whether its payload fires, and
/// the state after it. Unregistered types, types without a payload, and victims the payload's
/// filter excludes are skipped. An enter-only payload fires on the tick the victim is inside a
/// patch it was not inside last tick. Otherwise the (victim, surface type) clock decides: at
/// most once per tick, however many patches of the type overlap, and not before it is due
/// (an unset clock is due at zero); firing sets it one rehit interval ahead.
pub open spec fn standing_step(
    reg: Map<Seq<char>, SurfaceType>,
    prev: Seq<(EntityBits, EntityBits)>,
    now: Micros,
    ov: Overlap,
    due: Map<StandingKey, Micros>,
    fired: Set<StandingKey>,
) -> (bool, Map<StandingKey, Micros>, Set<StandingKey>) {
    match payload_of(reg, ov.surface@) {
        None => (false, due, fired),
        Some(p) => {
            let k = (ov.victim, ov.surface@);
            if !filter_admits(standing_hit_filter(p.filter), ov.owner_faction, ov.victim_faction, ov.victim == ov.owner) {
                (false, due, fired)
            } else if p.on_enter_only {
                (!prev.contains((ov.patch, ov.victim)), due, fired)
            } else if fired.contains(k) {
                (false, due, fired)
            } else if now < (if due.contains_key(k) { due[k] } else { 0 }) {
                (false, due, fired)
            } else {
                (true, due.insert(k, clamp_i64(now + p.rehit_interval) as Micros), fired.insert(k))
            }
        },
    }
}

/// The standing rule over the first `n` overlaps, in order, from clocks `due0`: the overlaps
/// that fire, the clocks, and the keys fired this tick.
pub open spec fn standing_run(
    reg: Map<Seq<char>, SurfaceType>,
    prev: Seq<(EntityBits, EntityBits)>,
    now: Micros,
    ovs: Seq<Overlap>,
    due0: Map<StandingKey, Micros>,
    n: int,
) -> (Seq<int>, Map<StandingKey, Micros>, Set<StandingKey>)
    decreases n,
{
    if n <= 0 {
        (Seq::empty(), due0, Set::empty())
    } else {
        let before = standing_run(reg, prev, now, ovs, due0, n - 1);
        let step = standing_step(reg, prev, now, ovs[n - 1], before.1, before.2);
        (if step.0 { before.0.push(n - 1) } else { before.0 }, step.1, step.2)
    }
}

fn key_listed(v: &Vec<(EntityBits, String)>, victim: EntityBits, surface: &String) -> (r: bool)
    ensures
        r == key_set(v@).contains((victim, surface@)),
{
    let mut i: usize = 0;
    while i < v.len()
        invariant
            i <= v.len(),
            forall|j: int| 0 <= j < i ==> !(v@[j].0 == victim && v@[j].1@ == surface@),
        decreases v.len() - i,
    {
        if v[i].0 == victim && v[i].1 == *surface {
            return true;
        }
        i += 1;
    }
    false
}

fn pair_listed(v: &Vec<(EntityBits, EntityBits)>, a: EntityBits, b: EntityBits) -> (r: bool)
    ensures
        r == v@.contains((a, b)),
{
    let mut i: usize = 0;
    while i < v.len()
        invariant
            i <= v.len(),
            forall|j: int| 0 <= j < i ==> v@[j] != (a, b),
        decreases v.len() - i,
    {
        if v[i].0 == a && v[i].1 == b {
            assert(v@[i as int] == (a, b));
            return true;
        }
        i += 1;
    }
    false
}

fn clone_opt(o: &Option<String>) -> (r: Option<String>)
    ensures
        opt_view(r) == opt_view(*o),
{
    match o {
        Some(s) => Some(s.clone()),
        None => None,
    }
}

impl StandingState {
    /// Nothing remembered.
    pub fn new() -> (r: Self)
        ensures
            r.next_due.wf(),
            r.next_due@ == Map::<StandingKey, Micros>::empty(),
            r.inside_prev@ == Seq::<(EntityBits, EntityBits)>::empty(),
    {
        StandingState { next_due: DueClocks::new(), inside_prev: Vec::new() }
    }

}

/// Run the standing rule for one tick at time `now` over `overlaps` (every live combatant
/// inside a patch, in patch-ordinal then victim order; see [`standing_step`]). Returns the
/// payloads that fire, in overlap order. Afterwards the clocks of victims not in `present`
/// are dropped and this tick's inside pairs are remembered.
pub fn apply_standing_payloads(
    state: &mut StandingState,
    registry: &SurfaceRegistry,
    overlaps: &Vec<Overlap>,
    now: Micros,
    present: &Vec<EntityBits>,
) -> (fires: Vec<StandingFire>)
    requires
        old(state).next_due.wf(),
    ensures
        final(state).next_due.wf(),
        ({
            let run = standing_run(registry.types@, old(state).inside_prev@, now, overlaps@,
                old(state).next_due@, overlaps@.len() as int);
            &&& fires@.len() == run.0.len()
            &&& forall|i: int| 0 <= i < fires@.len() ==> {
                let p = payload_of(registry.types@, overlaps@[run.0[i]].surface@)->0;
                &&& (#[trigger] fires@[i]).overlap == run.0[i]
                &&& opt_view(fires@[i].effect) == opt_view(p.effect)
                &&& opt_view(fires@[i].tick_skill) == opt_view(p.tick_skill)
            }
            &&& final(state).next_due@ == Map::new(
                |k: StandingKey| run.1.contains_key(k) && present@.contains(k.0),
                |k: StandingKey| run.1[k],
            )
        }),
        final(state).inside_prev@ == overlaps@.map_values(|o: Overlap| (o.patch, o.victim)),
{
    let ghost reg = registry.types@;
    let ghost prev = state.inside_prev@;
    let ghost due0 = state.next_due@;
    let mut fired: Vec<(EntityBits, String)> = Vec::new();
    let mut fires: Vec<StandingFire> = Vec::new();
    let mut i: usize = 0;
    proof {
        assert(key_set(fired@) =~= Set::<StandingKey>::empty());
    }
    while i < overlaps.len()
        invariant
            i <= overlaps.len(),
            state.next_due.wf(),
            state.inside_prev@ == prev,
            reg == registry.types@,
            ({
                let run = standing_run(reg, prev, now, overlaps@, due0, i as int);
                &&& fires@.len() == run.0.len()
                &&& forall|j: int| 0 <= j < fires@.len() ==> {
                    let p = payload_of(reg, overlaps@[run.0[j]].surface@)->0;
                    &&& (#[trigger] fires@[j]).overlap == run.0[j]
                    &&& opt_view(fires@[j].effect) == opt_view(p.effect)
                    &&& opt_view(fires@[j].tick_skill) == opt_view(p.tick_skill)
                }
                &&& state.next_due@ == run.1
                &&& key_set(fired@) == run.2
            }),
            forall|j: int| 0 <= j < standing_run(reg, prev, now, overlaps@, due0, i as int).0.len()
                ==> 0 <= #[trigger] standing_run(reg, prev, now, overlaps@, due0, i as int).0[j] < i,
        decreases overlaps.len() - i,
    {
        let ghost run = standing_run(reg, prev, now, overlaps@, due0, i as int);
        let ov = &overlaps[i];
        let ghost step = standing_step(reg, prev, now, overlaps@[i as int], run.1, run.2);
        let mut fire: Option<StandingFire> = None;
        match registry.types.get(ov.surface.as_str()) {
            None => {},
            Some(st) => {
                match &st.standing {
                    None => {},
                    Some(p) => {
                        if passes_filter(p.filter.to_hit_filter(), ov.owner_faction, ov.victim_faction, ov.victim == ov.owner) {
                            if p.on_enter_only {
                                if !pair_listed(&state.inside_prev, ov.patch, ov.victim) {
                                    fire = Some(StandingFire {
                                        overlap: i,
                                        effect: clone_opt(&p.effect),
                                        tick_skill: clone_opt(&p.tick_skill),
                                    });
                                }
                            } else if !key_listed(&fired, ov.victim, &ov.surface) {
                                let due = match state.next_due.get(ov.victim, &ov.surface) {
                                    Some(d) => d,
                                    None => 0,
                                };
                                if now >= due {
                                    state.next_due.set(ov.victim, &ov.surface, sat_add(now, p.rehit_interval));
                                    let ghost old_fired = fired@;
                                    fired.push((ov.victim, ov.surface.clone()));
                                    proof {
                                        let k = (ov.victim, ov.surface@);
                                        assert forall|q: StandingKey| key_set(fired@).contains(q) == key_set(old_fired).insert(k).contains(q) by {
                                            if key_set(old_fired).contains(q) && q != k {
                                                let w = choose|w: int| 0 <= w < old_fired.len() && old_fired[w].0 == q.0 && old_fired[w].1@ == q.1;
                                                assert(fired@[w] == old_fired[w]);
                                            }
                                            if q == k {
                                                assert(fired@[old_fired.len() as int].0 == q.0);
                                            }
                                            if key_set(fired@).contains(q) && q != k {
                                                let w = choose|w: int| 0 <= w < fired@.len() && fired@[w].0 == q.0 && fired@[w].1@ == q.1;
                                                assert(w < old_fired.len());
                                                assert(old_fired[w] == fired@[w]);
                                            }
                                        }
                                        assert(key_set(fired@) =~= key_set(old_fired).insert(k));
                                    }
                                    fire = Some(StandingFire {
                                        overlap: i,
                                        effect: clone_opt(&p.effect),
                                        tick_skill: clone_opt(&p.tick_skill),
                                    });
                                }
                            }
                        }
                    },
                }
            },
        }
        proof {
            assert(step.1 == state.next_due@);
            assert(step.2 == key_set(fired@));
            assert(step.0 == fire is Some);
        }
        match fire {
            Some(f) => {
                fires.push(f);
            },
            None => {},
        }
        proof {
            let run2 = standing_run(reg, prev, now, overlaps@, due0, i + 1);
            assert(run2.0 == (if step.0 { run.0.push(i as int) } else { run.0 }));
            assert forall|j: int| 0 <= j < fires@.len() implies {
                let p = payload_of(reg, overlaps@[run2.0[j]].surface@)->0;
                &&& (#[trigger] fires@[j]).overlap == run2.0[j]
                &&& opt_view(fires@[j].effect) == opt_view(p.effect)
                &&& opt_view(fires@[j].tick_skill) == opt_view(p.tick_skill)
            } by {
                if j < run.0.len() {
                    assert(run2.0[j] == run.0[j]);
                }
            }
        }
        i += 1;
    }
    state.next_due.retain_victims(present);
    let mut inside: Vec<(EntityBits, EntityBits)> = Vec::new();
    let mut j: usize = 0;
    while j < overlaps.len()
        invariant
            j <= overlaps.len(),
            inside@ == overlaps@.subrange(0, j as int).map_values(|o: Overlap| (o.patch, o.victim)),
        decreases overlaps.len() - j,
    {
        inside.push((overlaps[j].patch, overlaps[j].victim));
        proof {
            assert(overlaps@.subrange(0, j + 1) == overlaps@.subrange(0, j as int).push(overlaps@[j as int]));
        }
        j += 1;
    }
    proof {
        assert(overlaps@.subrange(0, overlaps@.len() as int) == overlaps@);
    }
    state.inside_prev = inside;
    fires
}

/// Overlap `i` carries a clock-driven (not enter-only) payload.
pub open spec fn clock_payload(reg: Map<Seq<char>, SurfaceType>, ovs: Seq<Overlap>, i: int) -> bool {
    payload_of(reg, ovs[i].surface@) is Some && !payload_of(reg, ovs[i].surface@)->0.on_enter_only
}

proof fn lemma_run_shape(
    reg: Map<Seq<char>, SurfaceType>,
    prev: Seq<(EntityBits, EntityBits)>,
    now: Micros,
    ovs: Seq<Overlap>,
    due0: Map<StandingKey, Micros>,
    n: int,
)
    requires
        0 <= n <= ovs.len(),
    ensures
        ({
            let run = standing_run(reg, prev, now, ovs, due0, n);
            &&& forall|j: int| 0 <= j < run.0.len() ==> 0 <= #[trigger] run.0[j] < n
            &&& forall|j: int| 0 <= j < run.0.len() && clock_payload(reg, ovs, run.0[j])
                ==> run.2.contains((ovs[#[trigger] run.0[j]].victim, ovs[run.0[j]].surface@))
            &&& forall|k: StandingKey| !(#[trigger] run.2.contains(k)) ==>
                (run.1.contains_key(k) == due0.contains_key(k) && (due0.contains_key(k) ==> run.1[k] == due0[k]))
        }),
    decreases n,
{
    if n > 0 {
        lemma_run_shape(reg, prev, now, ovs, due0, n - 1);
        let before = standing_run(reg, prev, now, ovs, due0, n - 1);
        let run = standing_run(reg, prev, now, ovs, due0, n);
        assert forall|j: int| 0 <= j < run.0.len() && clock_payload(reg, ovs, run.0[j])
            implies run.2.contains((ovs[#[trigger] run.0[j]].victim, ovs[run.0[j]].surface@)) by {
            if j < before.0.len() {
                assert(run.0[j] == before.0[j]);
            }
        }
    }
}

/// However many patches of one surface type a victim stands in, a clock-driven standing
/// payload of that type fires on it at most once per tick.
pub proof fn lemma_standing_once_per_tick(
    reg: Map<Seq<char>, SurfaceType>,
    prev: Seq<(EntityBits, EntityBits)>,
    now: Micros,
    ovs: Seq<Overlap>,
    due0: Map<StandingKey, Micros>,
    a: int,
    b: int,
)
    requires
        ({
            let run = standing_run(reg, prev, now, ovs, due0, ovs.len() as int);
            &&& 0 <= a < b < run.0.len()
            &&& clock_payload(reg, ovs, run.0[a])
            &&& clock_payload(reg, ovs, run.0[b])
        }),
    ensures
        ({
            let run = standing_run(reg, prev, now, ovs, due0, ovs.len() as int);
            (ovs[run.0[a]].victim, ovs[run.0[a]].surface@) != (ovs[run.0[b]].victim, ovs[run.0[b]].surface@)
        }),
{
    lemma_once_upto(reg, prev, now, ovs, due0, ovs.len() as int, a, b);
}

proof fn lemma_once_upto(
    reg: Map<Seq<char>, SurfaceType>,
    prev: Seq<(EntityBits, EntityBits)>,
    now: Micros,
    ovs: Seq<Overlap>,
    due0: Map<StandingKey, Micros>,
    n: int,
    a: int,
    b: int,
)
    requires
        0 <= n <= ovs.len(),
        ({
            let run = standing_run(reg, prev, now, ovs, due0, n);
            &&& 0 <= a < b < run.0.len()
            &&& clock_payload(reg, ovs, run.0[a])
            &&& clock_payload(reg, ovs, run.0[b])
        }),
    ensures
        ({
            let run = standing_run(reg, prev, now, ovs, due0, n);
            (ovs[run.0[a]].victim, ovs[run.0[a]].surface@) != (ovs[run.0[b]].victim, ovs[run.0[b]].surface@)
        }),
    decreases n,
{
    let before = standing_run(reg, prev, now, ovs, due0, n - 1);
    let run = standing_run(reg, prev, now, ovs, due0, n);
    lemma_run_shape(reg, prev, now, ovs, due0, n - 1);
    if b < before.0.len() {
        assert(run.0[a] == before.0[a] && run.0[b] == before.0[b]);
        lemma_once_upto(reg, prev, now, ovs, due0, n - 1, a, b);
    } else {
        assert(run.0[a] == before.0[a]);
        assert(run.0[b] == n - 1);
        assert(before.2.contains((ovs[before.0[a]].victim, ovs[before.0[a]].surface@)));
    }
}

/// A clock-driven standing payload fires only once its (victim, surface type) clock, as it
/// stood before the tick, is due (an unset clock is due at zero), and the tick leaves that
/// clock one rehit interval after `now`.
pub proof fn lemma_standing_waits_for_clock(
    reg: Map<Seq<char>, SurfaceType>,
    prev: Seq<(EntityBits, EntityBits)>,
    now: Micros,
    ovs: Seq<Overlap>,
    due0: Map<StandingKey, Micros>,
    a: int,
)
    requires
        ({
            let run = standing_run(reg, prev, now, ovs, due0, ovs.len() as int);
            &&& 0 <= a < run.0.len()
            &&& clock_payload(reg, ovs, run.0[a])
        }),
    ensures
        ({
            let run = standing_run(reg, prev, now, ovs, due0, ovs.len() as int);
            let ov = ovs[run.0[a]];
            let k = (ov.victim, ov.surface@);
            &&& now >= (if due0.contains_key(k) { due0[k] } else { 0 })
            &&& run.1.contains_key(k)
            &&& run.1[k] == clamp_i64(now + payload_of(reg, ov.surface@)->0.rehit_interval)
        }),
{
    lemma_waits_upto(reg, prev, now, ovs, due0, ovs.len() as int, a);
}

proof fn lemma_waits_upto(
    reg: Map<Seq<char>, SurfaceType>,
    prev: Seq<(EntityBits, EntityBits)>,
    now: Micros,
    ovs: Seq<Overlap>,
    due0: Map<StandingKey, Micros>,
    n: int,
    a: int,
)
    requires
        0 <= n <= ovs.len(),
        ({
            let run = standing_run(reg, prev, now, ovs, due0, n);
            &&& 0 <= a < run.0.len()
            &&& clock_payload(reg, ovs, run.0[a])
        }),
    ensures
        ({
            let run = standing_run(reg, prev, now, ovs, due0, n);
            let ov = ovs[run.0[a]];
            let k = (ov.victim, ov.surface@);
            &&& now >= (if due0.contains_key(k) { due0[k] } else { 0 })
            &&& run.1.contains_key(k)
            &&& run.1[k] == clamp_i64(now + payload_of(reg, ov.surface@)->0.rehit_interval)
        }),
    decreases n,
{
    let before = standing_run(reg, prev, now, ovs, due0, n - 1);
    let run = standing_run(reg, prev, now, ovs, due0, n);
    lemma_run_shape(reg, prev, now, ovs, due0, n - 1);
    if a < before.0.len() {
        assert(run.0[a] == before.0[a]);
        lemma_waits_upto(reg, prev, now, ovs, due0, n - 1, a);
        let ov = ovs[run.0[a]];
        let k = (ov.victim, ov.surface@);
        assert(before.2.contains(k));
        let cur = ovs[n - 1];
        let step = standing_step(reg, prev, now, cur, before.1, before.2);
        if step.0 && clock_payload(reg, ovs, n - 1) {
            assert((cur.victim, cur.surface@) != k);
        }
    } else {
        assert(run.0[a] == n - 1);
    }
}


impl Default for StandingState {
    /// Nothing remembered.
    fn default() -> (r: Self)
        ensures
            r.next_due.wf(),
            r.next_due@ == Map::<StandingKey, Micros>::empty(),
            r.inside_prev@ == Seq::<(EntityBits, EntityBits)>::empty(),
    {
        StandingState::new()
    }
}

/// Who a standing payload may fire on: never the patch's own painter, whatever the payload's
/// filter; under `Enemies` only a victim of another faction than the painter's, under `Allies`
/// only one of the painter's faction. An overlap whose victim is the painter leaves the clocks
/// and the tick's fired keys as they were.
pub proof fn lemma_standing_spares_painter(
    reg: Map<Seq<char>, SurfaceType>,
    prev: Seq<(EntityBits, EntityBits)>,
    now: Micros,
    ov: Overlap,
    due: Map<StandingKey, Micros>,
    fired: Set<StandingKey>,
)
    ensures
        ({
            let r = standing_step(reg, prev, now, ov, due, fired);
            &&& ov.victim == ov.owner ==> r == (false, due, fired)
            &&& r.0 ==> ov.victim != ov.owner
            &&& r.0 ==> (payload_of(reg, ov.surface@) matches Some(p) && ({
                &&& p.filter is Enemies ==> ov.victim_faction != ov.owner_faction
                &&& p.filter is Allies ==> ov.victim_faction == ov.owner_faction
            }))
        }),
{
}

/// Over a whole tick, no overlap whose victim is the patch's painter ever fires.
pub proof fn lemma_standing_run_spares_painter(
    reg: Map<Seq<char>, SurfaceType>,
    prev: Seq<(EntityBits, EntityBits)>,
    now: Micros,
    ovs: Seq<Overlap>,
    due0: Map<StandingKey, Micros>,
    n: int,
)
    requires
        0 <= n <= ovs.len(),
    ensures
        forall|a: int| 0 <= a < standing_run(reg, prev, now, ovs, due0, n).0.len() ==> {
            let i = #[trigger] standing_run(reg, prev, now, ovs, due0, n).0[a];
            &&& 0 <= i < n
            &&& ovs[i].victim != ovs[i].owner
        },
    decreases n,
{
    if n > 0 {
        lemma_standing_run_spares_painter(reg, prev, now, ovs, due0, n - 1);
        let before = standing_run(reg, prev, now, ovs, due0, n - 1);
        lemma_standing_spares_painter(reg, prev, now, ovs[n - 1], before.1, before.2);
    }
}

} // verus!
