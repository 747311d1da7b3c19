//! Hitbox-versus-surface contact reactions.
use crate::ids::EntityBits;
use crate::surfaces::types::{ContactReaction, SurfaceRegistry, SurfaceType};
use vstd::prelude::*;

verus! {

/// A live patch, as the contact rule sees it.
pub struct ContactPatch {
    pub entity: EntityBits,
    pub surface: String,
}

/// A live hitbox, as the contact rule sees it.
pub struct ContactHitbox {
    /// The snake_case names of the contacting skill's tags, or `None` when the skill is not
    /// registered (such a hitbox never reacts).
    pub tags: Option<Vec<String>>,
    /// Surface types this hitbox already reacted with.
    pub contacted: Vec<String>,
    /// For each patch, in patch order, whether the hitbox is inside it this tick.
    pub inside: Vec<bool>,
}

/// A reaction that fires: hitbox `hitbox` touched patch `patch`; execute `trigger_skill` at the
/// contact point (one trigger depth deeper), and despawn the patch when `consume`.
pub struct ContactFire {
    pub hitbox: usize,
    pub patch: usize,
    pub trigger_skill: String,
    pub consume: bool,
}

/// The tick's reactions, and each hitbox's reacted-with surface types afterwards.
pub struct ContactOutcome {
    pub fires: Vec<ContactFire>,
    pub contacted: Vec<Vec<String>>,
}

/// The strings of `v` as character sequences.
pub open spec fn names(v: Seq<String>) -> Seq<Seq<char>> {
    v.map_values(|s: String| s@)
}

/// A reaction matches a skill when one of its tags is among the skill's tags.
pub open spec fn reaction_matches(r: ContactReaction, tags: Seq<String>) -> bool {
    exists|i: int| 0 <= i < r.tags_any@.len() && names(tags).contains(#[trigger] r.tags_any@[i]@)
}

/// The first reaction among `rs[i..]` that matches `tags`.
pub open spec fn first_match(rs: Seq<ContactReaction>, tags: Seq<String>, i: int) -> Option<int>
    decreases rs.len() - i,
{
    if i < 0 || i >= rs.len() {
        None
    } else if reaction_matches(rs[i], tags) {
        Some(i)
    } else {
        first_match(rs, tags, i + 1)
    }
}

/// Hitbox `hb` (with skill tags `tags`) meeting patch `p`, with the patches consumed so far and
/// the surface types it has reacted with: the reaction that fires, if any, and the state after.
/// A consumed patch, an already-reacted type, a patch the hitbox is not inside, and an
/// unregistered type are passed over; otherwise the type's first matching reaction fires,
/// the type is recorded, and a consuming reaction consumes the patch.
pub open spec fn contact_step(
    reg: Map<Seq<char>, SurfaceType>,
    patches: Seq<ContactPatch>,
    hb: ContactHitbox,
    tags: Seq<String>,
    p: int,
    consumed: Set<int>,
    local: Seq<Seq<char>>,
) -> (Option<int>, Set<int>, Seq<Seq<char>>) {
    let surf = patches[p].surface@;
    if consumed.contains(p) || local.contains(surf) || !(p < hb.inside@.len() && hb.inside@[p])
        || !reg.contains_key(surf) {
        (None, consumed, local)
    } else {
        match first_match(reg[surf].on_skill_contact@, tags, 0) {
            None => (None, consumed, local),
            Some(r) => (
                Some(r),
                if reg[surf].on_skill_contact@[r].consume { consumed.insert(p) } else { consumed },
                local.push(surf),
            ),
        }
    }
}

/// Hitbox `hb` over the first `n` patches: the (patch, reaction) pairs that fire, the consumed
/// patches, and its reacted-with types.
pub open spec fn hitbox_run(
    reg: Map<Seq<char>, SurfaceType>,
    patches: Seq<ContactPatch>,
    hb: ContactHitbox,
    tags: Seq<String>,
    consumed0: Set<int>,
    n: int,
) -> (Seq<(int, int)>, Set<int>, Seq<Seq<char>>)
    decreases n,
{
    if n <= 0 {
        (Seq::empty(), consumed0, names(hb.contacted@))
    } else {
        let before = hitbox_run(reg, patches, hb, tags, consumed0, n - 1);
        let s = contact_step(reg, patches, hb, tags, n - 1, before.1, before.2);
        (if s.0 is Some { before.0.push((n - 1, s.0->0)) } else { before.0 }, s.1, s.2)
    }
}

/// The first `n` hitboxes, in order, over all patches: the (hitbox, patch, reaction) triples
/// that fire and the consumed patches. A hitbox of an unregistered skill reacts with nothing.
pub open spec fn contact_run(
    reg: Map<Seq<char>, SurfaceType>,
    patches: Seq<ContactPatch>,
    hbs: Seq<ContactHitbox>,
    n: int,
) -> (Seq<(int, int, int)>, Set<int>)
    decreases n,
{
    if n <= 0 {
        (Seq::empty(), Set::empty())
    } else {
        let before = contact_run(reg, patches, hbs, n - 1);
        match hbs[n - 1].tags {
            None => before,
            Some(tags) => {
                let r = hitbox_run(reg, patches, hbs[n - 1], tags@, before.1, patches.len() as int);
                (before.0 + r.0.map_values(|pr: (int, int)| (n - 1, pr.0, pr.1)), r.1)
            },
        }
    }
}

/// The reacted-with types of hitbox `h` after the tick.
pub open spec fn contacted_after(
    reg: Map<Seq<char>, SurfaceType>,
    patches: Seq<ContactPatch>,
    hbs: Seq<ContactHitbox>,
    h: int,
) -> Seq<Seq<char>> {
    match hbs[h].tags {
        None => names(hbs[h].contacted@),
        Some(tags) => hitbox_run(reg, patches, hbs[h], tags@, contact_run(reg, patches, hbs, h).1,
            patches.len() as int).2,
    }
}

fn name_listed(v: &Vec<String>, s: &String) -> (r: bool)
    ensures
        r == names(v@).contains(s@),
{
    let mut i: usize = 0;
    while i < v.len()
        invariant
            i <= v.len(),
            forall|j: int| 0 <= j < i ==> v@[j]@ != s@,
        decreases v.len() - i,
    {
        if v[i] == *s {
            assert(names(v@)[i as int] == s@);
            return true;
        }
        i += 1;
    }
    proof {
        if names(v@).contains(s@) {
            let j = choose|j: int| 0 <= j < names(v@).len() && names(v@)[j] == s@;
            assert(v@[j]@ == s@);
        }
    }
    false
}

fn matches_tags(r: &ContactReaction, tags: &Vec<String>) -> (b: bool)
    ensures
        b == reaction_matches(*r, tags@),
{
    let mut i: usize = 0;
    while i < r.tags_any.len()
        invariant
            i <= r.tags_any.len(),
            forall|j: int| 0 <= j < i ==> !names(tags@).contains(#[trigger] r.tags_any@[j]@),
        decreases r.tags_any.len() - i,
    {
        if name_listed(tags, &r.tags_any[i]) {
            return true;
        }
        i += 1;
    }
    false
}

fn first_matching(rs: &Vec<ContactReaction>, tags: &Vec<String>) -> (r: Option<usize>)
    ensures
        match r {
            Some(i) => first_match(rs@, tags@, 0) == Some(i as int) && i < rs.len(),
            None => first_match(rs@, tags@, 0) is None,
        },
{
    let mut i: usize = 0;
    while i < rs.len()
        invariant
            i <= rs.len(),
            first_match(rs@, tags@, 0) == first_match(rs@, tags@, i as int),
        decreases rs.len() - i,
    {
        if matches_tags(&rs[i], tags) {
            return Some(i);
        }
        i += 1;
    }
    None
}

fn clone_names(v: &Vec<String>) -> (r: Vec<String>)
    ensures
        names(r@) == names(v@),
{
    let mut r: Vec<String> = Vec::new();
    let mut i: usize = 0;
    while i < v.len()
        invariant
            i <= v.len(),
            names(r@) == names(v@.subrange(0, i as int)),
        decreases v.len() - i,
    {
        r.push(v[i].clone());
        proof {
            assert(names(v@.subrange(0, i + 1)) =~= names(v@.subrange(0, i as int)).push(v@[i as int]@));
            assert(names(r@) =~= names(v@.subrange(0, i as int)).push(v@[i as int]@));
        }
        i += 1;
    }
    proof {
        assert(v@.subrange(0, v@.len() as int) == v@);
    }
    r
}

/// Run the contact rule for one tick: hitboxes in order, each over the patches in order (see
/// [`contact_step`]); a patch consumed by one hitbox is gone for the ones after it.
pub fn surface_contact_triggers(
    registry: &SurfaceRegistry,
    patches: &Vec<ContactPatch>,
    hitboxes: &Vec<ContactHitbox>,
) -> (out: ContactOutcome)
    ensures
        ({
            let run = contact_run(registry.types@, patches@, hitboxes@, hitboxes@.len() as int);
            &&& out.fires@.len() == run.0.len()
            &&& forall|i: int| 0 <= i < out.fires@.len() ==> {
                let t = run.0[i];
                let rc = registry.types@[patches@[t.1].surface@].on_skill_contact@[t.2];
                &&& (#[trigger] out.fires@[i]).hitbox == t.0
                &&& out.fires@[i].patch == t.1
                &&& out.fires@[i].trigger_skill@ == rc.trigger_skill@
                &&& out.fires@[i].consume == rc.consume
            }
        }),
        out.contacted@.len() == hitboxes@.len(),
        forall|h: int| 0 <= h < hitboxes@.len() ==>
            names((#[trigger] out.contacted@[h])@) == contacted_after(registry.types@, patches@, hitboxes@, h),
{
    let ghost reg = registry.types@;
    let mut fires: Vec<ContactFire> = Vec::new();
    let mut contacted: Vec<Vec<String>> = Vec::new();
    let mut consumed: Vec<bool> = Vec::new();
    let mut k: usize = 0;
    while k < patches.len()
        invariant
            k <= patches.len(),
            consumed@.len() == k,
            forall|q: int| 0 <= q < k ==> !consumed@[q],
        decreases patches.len() - k,
    {
        consumed.push(false);
        k += 1;
    }
    let mut h: usize = 0;
    while h < hitboxes.len()
        invariant
            h <= hitboxes.len(),
            reg == registry.types@,
            consumed@.len() == patches@.len(),
            ({
                let run = contact_run(reg, patches@, hitboxes@, h as int);
                &&& forall|q: int| 0 <= q < patches@.len() ==> (consumed@[q] <==> run.1.contains(q))
                &&& fires@.len() == run.0.len()
                &&& forall|i: int| 0 <= i < fires@.len() ==> {
                    let t = run.0[i];
                    let rc = reg[patches@[t.1].surface@].on_skill_contact@[t.2];
                    &&& (#[trigger] fires@[i]).hitbox == t.0
                    &&& fires@[i].patch == t.1
                    &&& fires@[i].trigger_skill@ == rc.trigger_skill@
                    &&& fires@[i].consume == rc.consume
                }
            }),
            contacted@.len() == h,
            forall|g: int| 0 <= g < h ==>
                names((#[trigger] contacted@[g])@) == contacted_after(reg, patches@, hitboxes@, g),
        decreases hitboxes.len() - h,
    {
        let hb = &hitboxes[h];
        let ghost before = contact_run(reg, patches@, hitboxes@, h as int);
        let mut local = clone_names(&hb.contacted);
        match &hb.tags {
            None => {},
            Some(tags) => {
                let ghost f0 = fires@;
                let mut p: usize = 0;
                while p < patches.len()
                    invariant
                        p <= patches.len(),
                        h < hitboxes.len(),
                        hb == hitboxes@[h as int],
                        hb.tags == Some(*tags),
                        reg == registry.types@,
                        consumed@.len() == patches@.len(),
                        before == contact_run(reg, patches@, hitboxes@, h as int),
                        f0.len() == before.0.len(),
                        ({
                            let r = hitbox_run(reg, patches@, *hb, tags@, before.1, p as int);
                            &&& forall|q: int| 0 <= q < patches@.len() ==> (consumed@[q] <==> r.1.contains(q))
                            &&& names(local@) == r.2
                            &&& fires@.len() == f0.len() + r.0.len()
                            &&& forall|i: int| 0 <= i < f0.len() ==> fires@[i] == f0[i]
                            &&& forall|i: int| 0 <= i < r.0.len() ==> {
                                let t = r.0[i];
                                let rc = reg[patches@[t.0].surface@].on_skill_contact@[t.1];
                                &&& (#[trigger] fires@[f0.len() + i]).hitbox == h
                                &&& fires@[f0.len() + i].patch == t.0
                                &&& fires@[f0.len() + i].trigger_skill@ == rc.trigger_skill@
                                &&& fires@[f0.len() + i].consume == rc.consume
                            }
                            &&& forall|i: int| 0 <= i < r.0.len() ==> 0 <= (#[trigger] r.0[i]).0 < p
                        }),
                        forall|i: int| 0 <= i < f0.len() ==> {
                            let t = before.0[i];
                            let rc = reg[patches@[t.1].surface@].on_skill_contact@[t.2];
                            &&& (#[trigger] f0[i]).hitbox == t.0
                            &&& f0[i].patch == t.1
                            &&& f0[i].trigger_skill@ == rc.trigger_skill@
                            &&& f0[i].consume == rc.consume
                        },
                    decreases patches.len() - p,
                {
                    let ghost r = hitbox_run(reg, patches@, *hb, tags@, before.1, p as int);
                    let ghost s = contact_step(reg, patches@, *hb, tags@, p as int, r.1, r.2);
                    let patch = &patches[p];
                    let inside = p < hb.inside.len() && hb.inside[p];
                    if !consumed[p] && !name_listed(&local, &patch.surface) && inside {
                        match registry.types.get(patch.surface.as_str()) {
                            None => {},
                            Some(st) => {
                                match first_matching(&st.on_skill_contact, tags) {
                                    None => {},
                                    Some(ri) => {
                                        let rc = &st.on_skill_contact[ri];
                                        let ghost old_local = local@;
                                        local.push(patch.surface.clone());
                                        proof {
                                            assert(names(local@) =~= names(old_local).push(patch.surface@));
                                        }
                                        if rc.consume {
                                            consumed.set(p, true);
                                        }
                                        fires.push(ContactFire {
                                            hitbox: h,
                                            patch: p,
                                            trigger_skill: rc.trigger_skill.clone(),
                                            consume: rc.consume,
                                        });
                                    },
                                }
                            },
                        }
                    }
                    proof {
                        let r2 = hitbox_run(reg, patches@, *hb, tags@, before.1, p + 1);
                        assert(r2.1 == s.1);
                        assert(r2.2 == s.2);
                        assert(forall|q: int| 0 <= q < patches@.len() ==> (consumed@[q] <==> s.1.contains(q)));
                        assert(names(local@) == s.2);
                        assert forall|i: int| 0 <= i < r2.0.len() implies {
                            let t = r2.0[i];
                            let rc = reg[patches@[t.0].surface@].on_skill_contact@[t.1];
                            &&& (#[trigger] fires@[f0.len() + i]).hitbox == h
                            &&& fires@[f0.len() + i].patch == t.0
                            &&& fires@[f0.len() + i].trigger_skill@ == rc.trigger_skill@
                            &&& fires@[f0.len() + i].consume == rc.consume
                        } by {
                            if i < r.0.len() {
                                assert(r2.0[i] == r.0[i]);
                            }
                        }
                        assert forall|i: int| 0 <= i < r2.0.len() implies 0 <= (#[trigger] r2.0[i]).0 < p + 1 by {
                            if i < r.0.len() {
                                assert(r2.0[i] == r.0[i]);
                            }
                        }
                    }
                    p += 1;
                }
                proof {
                    let r = hitbox_run(reg, patches@, *hb, tags@, before.1, patches@.len() as int);
                    let after = contact_run(reg, patches@, hitboxes@, h + 1);
                    let mapped = r.0.map_values(|pr: (int, int)| (h as int, pr.0, pr.1));
                    assert(after.0 == before.0 + mapped);
                    assert forall|i: int| 0 <= i < fires@.len() implies {
                        let t = after.0[i];
                        let rc = reg[patches@[t.1].surface@].on_skill_contact@[t.2];
                        &&& (#[trigger] fires@[i]).hitbox == t.0
                        &&& fires@[i].patch == t.1
                        &&& fires@[i].trigger_skill@ == rc.trigger_skill@
                        &&& fires@[i].consume == rc.consume
                    } by {
                        if i < f0.len() {
                            assert(after.0[i] == before.0[i]);
                            assert(fires@[i] == f0[i]);
                            assert(f0[i].hitbox == before.0[i].0);
                        } else {
                            let w = i - f0.len();
                            assert(after.0[i] == mapped[w]);
                            assert(mapped[w] == (h as int, r.0[w].0, r.0[w].1));
                            assert(fires@[f0.len() + w] == fires@[i]);
                            assert(fires@[f0.len() + w].hitbox == h);
                            assert(fires@[f0.len() + w].patch == r.0[w].0);
                            let rc = reg[patches@[r.0[w].0].surface@].on_skill_contact@[r.0[w].1];
                            assert(fires@[f0.len() + w].trigger_skill@ == rc.trigger_skill@);
                        }
                    }
                }
            },
        }
        contacted.push(local);
        proof {
            assert forall|g: int| 0 <= g < h + 1 implies
                names((#[trigger] contacted@[g])@) == contacted_after(reg, patches@, hitboxes@, g) by {
                if g == h {
                    assert(contacted@[g] == local);
                }
            }
        }
        h += 1;
    }
    ContactOutcome { fires, contacted }
}

proof fn lemma_hitbox_run_shape(
    reg: Map<Seq<char>, SurfaceType>,
    patches: Seq<ContactPatch>,
    hb: ContactHitbox,
    tags: Seq<String>,
    consumed0: Set<int>,
    n: int,
)
    requires
        0 <= n <= patches.len(),
    ensures
        ({
            let run = hitbox_run(reg, patches, hb, tags, consumed0, n);
            &&& forall|j: int| 0 <= j < run.0.len() ==> 0 <= (#[trigger] run.0[j]).0 < n
            &&& forall|j: int| 0 <= j < run.0.len() ==> run.2.contains(patches[(#[trigger] run.0[j]).0].surface@)
            &&& forall|x: Seq<char>| names(hb.contacted@).contains(x) ==> #[trigger] run.2.contains(x)
        }),
    decreases n,
{
    if n > 0 {
        lemma_hitbox_run_shape(reg, patches, hb, tags, consumed0, n - 1);
        let before = hitbox_run(reg, patches, hb, tags, consumed0, n - 1);
        let run = hitbox_run(reg, patches, hb, tags, consumed0, n);
        let s = contact_step(reg, patches, hb, tags, n - 1, before.1, before.2);
        if s.0 is Some {
            assert(run.2 == before.2.push(patches[n - 1].surface@));
            assert forall|x: Seq<char>| before.2.contains(x) implies #[trigger] run.2.contains(x) by {
                let w = choose|w: int| 0 <= w < before.2.len() && before.2[w] == x;
                assert(run.2[w] == x);
            }
            assert(run.2[before.2.len() as int] == patches[n - 1].surface@);
        }
        assert forall|j: int| 0 <= j < run.0.len() implies run.2.contains(patches[(#[trigger] run.0[j]).0].surface@) by {
            if j < before.0.len() {
                assert(run.0[j] == before.0[j]);
            }
        }
        assert forall|j: int| 0 <= j < run.0.len() implies 0 <= (#[trigger] run.0[j]).0 < n by {
            if j < before.0.len() {
                assert(run.0[j] == before.0[j]);
            }
        }
    }
}

/// Within a tick a hitbox reacts with each surface type at most once, and never with a type
/// it had already reacted with: the reactions of one hitbox are with distinct types, none of
/// them in its reacted-with list (which, afterwards, holds every type it reacted with).
pub proof fn lemma_contact_once_per_type(
    reg: Map<Seq<char>, SurfaceType>,
    patches: Seq<ContactPatch>,
    hb: ContactHitbox,
    tags: Seq<String>,
    consumed0: Set<int>,
    a: int,
    b: int,
)
    requires
        ({
            let run = hitbox_run(reg, patches, hb, tags, consumed0, patches.len() as int);
            0 <= a < b < run.0.len()
        }),
    ensures
        ({
            let run = hitbox_run(reg, patches, hb, tags, consumed0, patches.len() as int);
            &&& patches[run.0[a].0].surface@ != patches[run.0[b].0].surface@
            &&& !names(hb.contacted@).contains(patches[run.0[b].0].surface@)
            &&& run.2.contains(patches[run.0[b].0].surface@)
        }),
{
    lemma_once_type_upto(reg, patches, hb, tags, consumed0, patches.len() as int, a, b);
    lemma_hitbox_run_shape(reg, patches, hb, tags, consumed0, patches.len() as int);
}

proof fn lemma_once_type_upto(
    reg: Map<Seq<char>, SurfaceType>,
    patches: Seq<ContactPatch>,
    hb: ContactHitbox,
    tags: Seq<String>,
    consumed0: Set<int>,
    n: int,
    a: int,
    b: int,
)
    requires
        0 <= n <= patches.len(),
        ({
            let run = hitbox_run(reg, patches, hb, tags, consumed0, n);
            0 <= a < b < run.0.len()
        }),
    ensures
        ({
            let run = hitbox_run(reg, patches, hb, tags, consumed0, n);
            &&& patches[run.0[a].0].surface@ != patches[run.0[b].0].surface@
            &&& !names(hb.contacted@).contains(patches[run.0[b].0].surface@)
        }),
    decreases n,
{
    let before = hitbox_run(reg, patches, hb, tags, consumed0, n - 1);
    let run = hitbox_run(reg, patches, hb, tags, consumed0, n);
    lemma_hitbox_run_shape(reg, patches, hb, tags, consumed0, n - 1);
    if b < before.0.len() {
        assert(run.0[a] == before.0[a] && run.0[b] == before.0[b]);
        lemma_once_type_upto(reg, patches, hb, tags, consumed0, n - 1, a, b);
    } else {
        assert(run.0[a] == before.0[a]);
        assert(run.0[b].0 == n - 1);
        assert(before.2.contains(patches[before.0[a].0].surface@));
    }
}

} // verus!
