//! Surface patches: painted splats of a surface type, their spawn ordinal, expiry, and the
//! merge-dedup / replace-oldest rules that decide what a paint request does.
use crate::combatant::components::Faction;
use crate::ids::EntityBits;
use crate::surfaces::types::{SurfaceRegistry, SurfaceType};
use crate::units::{clamp_i64, sat_sub, Fixed, Micros};
use vstd::prelude::*;
use vstd::set_lib::{lemma_len_subset, lemma_int_range, set_int_range};

verus! {

/// One painted patch of a surface type.
pub struct SurfacePatch {
    pub surface: String,
    pub owner: EntityBits,
    /// The painter's faction when it painted (the standing filter's reference frame).
    pub owner_faction: Faction,
    /// The skill whose window painted this (empty for direct paint requests).
    pub skill_id: String,
    pub radius: Fixed,
    /// Time until expiry.
    pub remaining: Micros,
    /// Spawn ordinal: the eviction ("oldest") key.
    pub seq: u64,
}

impl SurfacePatch {
    /// Count the patch's lifetime down by `dt`; `true` when it has expired (nothing left).
    pub fn decay(&mut self, dt: Micros) -> (expired: bool)
        ensures
            final(self).remaining == clamp_i64(old(self).remaining - dt),
            expired == (final(self).remaining <= 0),
            final(self).surface == old(self).surface,
            final(self).owner == old(self).owner,
            final(self).owner_faction == old(self).owner_faction,
            final(self).skill_id == old(self).skill_id,
            final(self).radius == old(self).radius,
            final(self).seq == old(self).seq,
    {
        self.remaining = sat_sub(self.remaining, dt);
        self.remaining <= 0
    }
}

/// Monotonic patch spawn counter.
#[derive(Debug, Default)]
pub struct SurfaceSeq(pub u64);

/// Why a patch left the world.
#[derive(Clone, Copy, Debug, PartialEq, Eq, Structural)]
pub enum SurfaceRemoveReason {
    Expired,
    Consumed,
    Evicted,
}

/// A committed patch of the surface type being painted, as the paint rule sees it.
#[derive(Clone, Copy, Debug)]
pub struct PaintCandidate {
    pub entity: EntityBits,
    pub seq: u64,
    /// Already queued for eviction by an earlier paint this tick.
    pub evicted: bool,
}

/// Eviction order: by spawn ordinal, ties by position in the list (a stable sort).
pub open spec fn older(c: Seq<PaintCandidate>, i: int, j: int) -> bool {
    c[i].seq < c[j].seq || (c[i].seq == c[j].seq && i < j)
}

/// Candidate `i` exists and is not already evicted.
pub open spec fn is_live(c: Seq<PaintCandidate>, i: int) -> bool {
    0 <= i < c.len() && !c[i].evicted
}

/// The live candidates among the first `m`.
pub open spec fn live_set(c: Seq<PaintCandidate>, m: int) -> Set<int> {
    Set::new(|i: int| 0 <= i < m && is_live(c, i))
}

/// How many candidates are live.
pub open spec fn live_count(c: Seq<PaintCandidate>) -> nat {
    live_set(c, c.len() as int).len()
}

/// How many live patches a new paint evicts under the cap `max`: enough to leave room for
/// the new one (never more than there are).
pub open spec fn evict_count(live: nat, max: nat) -> nat {
    if live + 1 > max {
        if max == 0 { live } else { (live + 1 - max) as nat }
    } else {
        0
    }
}

/// `j` occurs in `r`.
pub open spec fn listed(r: Seq<usize>, j: int) -> bool {
    exists|a: int| 0 <= a < r.len() && r[a] == j
}

/// `r` lists, oldest first, the `k` oldest live candidates.
pub open spec fn oldest_live(c: Seq<PaintCandidate>, r: Seq<usize>, k: nat) -> bool {
    &&& r.len() == k
    &&& forall|a: int| 0 <= a < r.len() ==> is_live(c, #[trigger] r[a] as int)
    &&& forall|a: int, b: int| 0 <= a < b < r.len() ==> older(c, #[trigger] r[a] as int, #[trigger] r[b] as int)
    &&& forall|j: int, a: int| #![trigger is_live(c, j), r[a]]
        is_live(c, j) && !listed(r, j) && 0 <= a < r.len() ==> older(c, r[a] as int, j)
}

proof fn lemma_live_set_step(c: Seq<PaintCandidate>, m: int)
    requires
        0 <= m < c.len(),
        live_set(c, m).finite(),
    ensures
        live_set(c, m + 1) == (if is_live(c, m) { live_set(c, m).insert(m) } else { live_set(c, m) }),
        live_set(c, m + 1).finite(),
        live_set(c, m + 1).len() == live_set(c, m).len() + (if is_live(c, m) { 1int } else { 0int }),
{
    if is_live(c, m) {
        assert(live_set(c, m + 1) =~= live_set(c, m).insert(m));
        assert(!live_set(c, m).contains(m));
    } else {
        assert(live_set(c, m + 1) =~= live_set(c, m));
    }
}

fn is_older(c: &Vec<PaintCandidate>, i: usize, j: usize) -> (r: bool)
    requires
        i < c.len(),
        j < c.len(),
    ensures
        r == older(c@, i as int, j as int),
{
    c[i].seq < c[j].seq || (c[i].seq == c[j].seq && i < j)
}

fn count_live(c: &Vec<PaintCandidate>) -> (n: usize)
    ensures
        n == live_count(c@),
        live_set(c@, c@.len() as int).finite(),
{
    let mut n: usize = 0;
    let mut i: usize = 0;
    proof {
        assert(live_set(c@, 0) =~= Set::<int>::empty());
    }
    while i < c.len()
        invariant
            i <= c.len(),
            live_set(c@, i as int).finite(),
            n == live_set(c@, i as int).len(),
            n <= i,
        decreases c.len() - i,
    {
        proof {
            lemma_live_set_step(c@, i as int);
        }
        if !c[i].evicted {
            n += 1;
        }
        i += 1;
    }
    n
}

/// The `k` oldest live candidates, oldest first.
fn select_oldest(c: &Vec<PaintCandidate>, k: usize) -> (r: Vec<usize>)
    requires
        k <= live_count(c@),
        live_set(c@, c@.len() as int).finite(),
    ensures
        oldest_live(c@, r@, k as nat),
{
    let mut r: Vec<usize> = Vec::new();
    while r.len() < k
        invariant
            k <= live_count(c@),
            live_set(c@, c@.len() as int).finite(),
            r.len() <= k,
            forall|a: int| 0 <= a < r.len() ==> is_live(c@, #[trigger] r@[a] as int),
            forall|a: int, b: int| 0 <= a < b < r.len() ==> older(c@, #[trigger] r@[a] as int, #[trigger] r@[b] as int),
            forall|j: int, a: int| #![trigger is_live(c@, j), r@[a]]
                is_live(c@, j) && !listed(r@, j) && 0 <= a < r.len() ==> older(c@, r@[a] as int, j),
        decreases k - r.len(),
    {
        let mut best: Option<usize> = None;
        let mut j: usize = 0;
        while j < c.len()
            invariant
                j <= c.len(),
                r.len() < k,
                forall|a: int| 0 <= a < r.len() ==> is_live(c@, #[trigger] r@[a] as int),
                match best {
                    Some(b) => {
                        &&& b < j
                        &&& is_live(c@, b as int)
                        &&& (r.len() == 0 || older(c@, r@[r.len() - 1] as int, b as int))
                        &&& forall|x: int| 0 <= x < j && #[trigger] is_live(c@, x)
                            && (r.len() == 0 || older(c@, r@[r.len() - 1] as int, x))
                            ==> x == b || older(c@, b as int, x)
                    },
                    None => forall|x: int| 0 <= x < j && #[trigger] is_live(c@, x)
                        ==> !(r.len() == 0 || older(c@, r@[r.len() - 1] as int, x)),
                },
            decreases c.len() - j,
        {
            let above = r.len() == 0 || is_older(c, r[r.len() - 1], j);
            if !c[j].evicted && above {
                match best {
                    None => {
                        best = Some(j);
                    },
                    Some(b) => {
                        if is_older(c, j, b) {
                            proof {
                                assert forall|x: int| 0 <= x < j + 1 && #[trigger] is_live(c@, x)
                                    && (r.len() == 0 || older(c@, r@[r.len() - 1] as int, x))
                                    implies x == j || older(c@, j as int, x) by {
                                    if x < j && x != b {
                                        assert(older(c@, b as int, x));
                                    }
                                }
                            }
                            best = Some(j);
                        }
                    },
                }
            }
            j += 1;
        }
        match best {
            Some(b) => {
                proof {
                    if listed(r@, b as int) {
                        let a = choose|a: int| 0 <= a < r.len() && r@[a] == b;
                        if a < r.len() - 1 {
                            assert(older(c@, r@[a] as int, r@[r.len() - 1] as int));
                        }
                        assert(false);
                    }
                }
                let ghost old_r = r@;
                r.push(b);
                proof {
                    assert forall|a: int, bb: int| 0 <= a < bb < r.len() implies older(c@, #[trigger] r@[a] as int, #[trigger] r@[bb] as int) by {
                        if bb == r.len() - 1 {
                            assert(older(c@, old_r[a] as int, b as int));
                        } else {
                            assert(r@[a] == old_r[a] && r@[bb] == old_r[bb]);
                        }
                    }
                    assert forall|x: int, a: int| #![trigger is_live(c@, x), r@[a]]
                        is_live(c@, x) && !listed(r@, x) && 0 <= a < r.len() implies older(c@, r@[a] as int, x) by {
                        assert(!listed(old_r, x)) by {
                            if listed(old_r, x) {
                                let w = choose|w: int| 0 <= w < old_r.len() && old_r[w] == x;
                                assert(r@[w] == x);
                            }
                        }
                        if a == r.len() - 1 {
                            assert(x != b) by {
                                assert(r@[r.len() - 1] == b);
                            }
                            if old_r.len() > 0 {
                                assert(older(c@, old_r[old_r.len() - 1] as int, x));
                            }
                        } else {
                            assert(r@[a] == old_r[a]);
                        }
                    }
                }
            },
            None => {
                proof {
                    let rs = r@.map_values(|x: usize| x as int);
                    assert forall|a: int, bb: int| 0 <= a < rs.len() && 0 <= bb < rs.len() && a != bb implies rs[a] != rs[bb] by {
                        if a < bb {
                            assert(older(c@, r@[a] as int, r@[bb] as int));
                        } else {
                            assert(older(c@, r@[bb] as int, r@[a] as int));
                        }
                    }
                    assert(rs.no_duplicates());
                    rs.unique_seq_to_set();
                    assert forall|x: int| #[trigger] live_set(c@, c@.len() as int).contains(x) implies rs.to_set().contains(x) by {
                        if !listed(r@, x) {
                            if r.len() > 0 {
                                assert(older(c@, r@[r.len() - 1] as int, x));
                            }
                            assert(false);
                        }
                        let a = choose|a: int| 0 <= a < r.len() && r@[a] == x;
                        assert(rs[a] == x);
                    }
                    lemma_len_subset(live_set(c@, c@.len() as int), rs.to_set());
                    assert(false);
                }
            },
        }
    }
    r
}

/// What a paint request does.
pub enum PaintOutcome {
    /// The surface type is not registered.
    Unknown,
    /// A same-type patch (committed, or queued this tick) is within the merge radius.
    Deduped,
    /// Evict the listed candidates (positions in the candidate list, oldest first), then
    /// spawn `patch`.
    Painted { evict: Vec<usize>, patch: SurfacePatch },
}

/// Decide a paint of `surface_id`: an unregistered type paints nothing; a paint within the
/// type's merge radius of a same-type patch (committed, `near_existing`, or queued this tick,
/// `near_batch`) is deduplicated; otherwise, when the live same-type patches `same` leave no
/// room under the type's cap, the oldest of them are evicted to make room, and the new patch
/// takes the next spawn ordinal, the type's default radius and lifetime unless overridden.
pub fn try_paint(
    registry: &SurfaceRegistry,
    seq: &mut SurfaceSeq,
    same: &Vec<PaintCandidate>,
    near_existing: bool,
    near_batch: bool,
    surface_id: &str,
    radius_override: Option<Fixed>,
    lifetime_override: Option<Micros>,
    owner: EntityBits,
    owner_faction: Faction,
    skill_id: &str,
) -> (out: PaintOutcome)
    requires
        old(seq).0 < u64::MAX,
    ensures
        !registry.types@.contains_key(surface_id@) ==> (out is Unknown && final(seq).0 == old(seq).0),
        registry.types@.contains_key(surface_id@) && (near_existing || near_batch) ==> (out is Deduped
            && final(seq).0 == old(seq).0),
        registry.types@.contains_key(surface_id@) && !near_existing && !near_batch ==> {
            let st = registry.types@[surface_id@];
            match out {
                PaintOutcome::Painted { evict, patch } => {
                    &&& oldest_live(same@, evict@, evict_count(live_count(same@), st.max_patches as nat))
                    &&& final(seq).0 == old(seq).0 + 1
                    &&& patch.seq == final(seq).0
                    &&& patch.surface@ == surface_id@
                    &&& patch.owner == owner
                    &&& patch.owner_faction == owner_faction
                    &&& patch.skill_id@ == skill_id@
                    &&& patch.radius == match radius_override { Some(r) => r, None => st.patch_radius }
                    &&& patch.remaining == match lifetime_override { Some(l) => l, None => st.lifetime }
                },
                _ => false,
            }
        },
{
    let st: &SurfaceType = match registry.types.get(surface_id) {
        Some(st) => st,
        None => {
            return PaintOutcome::Unknown;
        },
    };
    if near_existing || near_batch {
        return PaintOutcome::Deduped;
    }
    let n = count_live(same);
    let max = st.max_patches;
    let k: usize = if n >= max {
        if max == 0 { n } else { n - max + 1 }
    } else {
        0
    };
    let evict = select_oldest(same, k);
    seq.0 = seq.0 + 1;
    let radius = match radius_override {
        Some(r) => r,
        None => st.patch_radius,
    };
    let remaining = match lifetime_override {
        Some(l) => l,
        None => st.lifetime,
    };
    let patch = SurfacePatch {
        surface: surface_id.to_string(),
        owner,
        owner_faction,
        skill_id: skill_id.to_string(),
        radius,
        remaining,
        seq: seq.0,
    };
    PaintOutcome::Painted { evict, patch }
}

/// A paint never leaves more live patches of a type than its cap (when the cap is at least
/// one): the evictions make exactly enough room for the new patch, never more than there are,
/// and none happen while there is room.
pub proof fn lemma_paint_respects_cap(live: nat, max: nat)
    requires
        max >= 1,
    ensures
        evict_count(live, max) <= live,
        live - evict_count(live, max) + 1 <= max,
        live + 1 <= max ==> evict_count(live, max) == 0,
        live + 1 > max ==> live - evict_count(live, max) + 1 == max,
{
}

} // verus!
