//! Per-(victim, surface type) rehit clocks of standing payloads.
use crate::ids::EntityBits;
use crate::units::Micros;
use vstd::prelude::*;

verus! {

/// A standing-clock key: the victim and the surface type id.
pub type StandingKey = (EntityBits, Seq<char>);

struct DueEntry {
    victim: EntityBits,
    surface: String,
    due: Micros,
}

spec fn due_key(e: DueEntry) -> StandingKey {
    (e.victim, e.surface@)
}

/// When each (victim, surface type) pair is next due a standing tick.
pub struct DueClocks {
    entries: Vec<DueEntry>,
    model: Ghost<Map<StandingKey, Micros>>,
}

impl View for DueClocks {
    type V = Map<StandingKey, Micros>;

    closed spec fn view(&self) -> Map<StandingKey, Micros> {
        self.model@
    }
}

/// `x` occurs in `v`.
pub fn contains_entity(v: &Vec<EntityBits>, x: EntityBits) -> (r: bool)
    ensures
        r == v@.contains(x),
{
    let mut i: usize = 0;
    while i < v.len()
        invariant
            i <= v.len(),
            forall|j: int| 0 <= j < i ==> v@[j] != x,
        decreases v.len() - i,
    {
        if v[i] == x {
            assert(v@[i as int] == x);
            return true;
        }
        i += 1;
    }
    false
}

impl DueClocks {
    /// Internal consistency: the stored clocks have distinct keys and are exactly the model.
    pub closed spec fn wf(&self) -> bool {
        &&& forall|i: int| 0 <= i < self.entries.len() ==> {
            &&& #[trigger] self.model@.contains_key(due_key(self.entries@[i]))
            &&& self.model@[due_key(self.entries@[i])] == self.entries@[i].due
        }
        &&& forall|k: StandingKey| #[trigger] self.model@.contains_key(k) ==>
            exists|i: int| 0 <= i < self.entries.len() && due_key(self.entries@[i]) == k
        &&& forall|i: int, j: int| 0 <= i < j < self.entries.len() ==>
            due_key(#[trigger] self.entries@[i]) != due_key(#[trigger] self.entries@[j])
    }

    /// No clocks.
    pub fn new() -> (r: Self)
        ensures
            r.wf(),
            r@ == Map::<StandingKey, Micros>::empty(),
    {
        DueClocks { entries: Vec::new(), model: Ghost(Map::empty()) }
    }

    fn find(&self, victim: EntityBits, surface: &String) -> (r: Option<usize>)
        requires
            self.wf(),
        ensures
            match r {
                Some(i) => i < self.entries.len() && due_key(self.entries@[i as int]) == (victim, surface@),
                None => !self@.contains_key((victim, surface@)),
            },
    {
        let mut i: usize = 0;
        while i < self.entries.len()
            invariant
                self.wf(),
                i <= self.entries.len(),
                forall|j: int| 0 <= j < i ==> due_key(#[trigger] self.entries@[j]) != (victim, surface@),
            decreases self.entries.len() - i,
        {
            if self.entries[i].victim == victim && self.entries[i].surface == *surface {
                return Some(i);
            }
            i += 1;
        }
        proof {
            if self@.contains_key((victim, surface@)) {
                let j = choose|j: int| 0 <= j < self.entries.len() && due_key(self.entries@[j]) == (victim, surface@);
                assert(due_key(self.entries@[j]) != (victim, surface@));
            }
        }
        None
    }

    /// The clock of (`victim`, `surface`), if one was set.
    pub fn get(&self, victim: EntityBits, surface: &String) -> (r: Option<Micros>)
        requires
            self.wf(),
        ensures
            r == (if self@.contains_key((victim, surface@)) { Some(self@[(victim, surface@)]) } else { None::<Micros> }),
    {
        match self.find(victim, surface) {
            Some(i) => Some(self.entries[i].due),
            None => None,
        }
    }

    /// Set the clock of (`victim`, `surface`) to `due`.
    pub fn set(&mut self, victim: EntityBits, surface: &String, due: Micros)
        requires
            old(self).wf(),
        ensures
            final(self).wf(),
            final(self)@ == old(self)@.insert((victim, surface@), due),
    {
        let ghost k = (victim, surface@);
        match self.find(victim, surface) {
            Some(i) => {
                let ghost old_entries = self.entries@;
                self.entries.set(i, DueEntry { victim, surface: surface.clone(), due });
                proof {
                    self.model@ = self.model@.insert(k, due);
                    assert forall|q: StandingKey| #[trigger] self.model@.contains_key(q) implies
                        exists|j: int| 0 <= j < self.entries.len() && due_key(self.entries@[j]) == q by {
                        if q != k {
                            let j = choose|j: int| 0 <= j < old_entries.len() && due_key(old_entries[j]) == q;
                            assert(due_key(self.entries@[j]) == q);
                        } else {
                            assert(due_key(self.entries@[i as int]) == q);
                        }
                    }
                    assert forall|a: int, b: int| 0 <= a < b < self.entries.len() implies
                        due_key(#[trigger] self.entries@[a]) != due_key(#[trigger] self.entries@[b]) by {
                        if a != i && b != i {
                            assert(due_key(old_entries[a]) != due_key(old_entries[b]));
                        }
                    }
                }
            },
            None => {
                let ghost old_entries = self.entries@;
                self.entries.push(DueEntry { victim, surface: surface.clone(), due });
                proof {
                    self.model@ = self.model@.insert(k, due);
                    let n = old_entries.len() as int;
                    assert forall|q: StandingKey| #[trigger] self.model@.contains_key(q) implies
                        exists|j: int| 0 <= j < self.entries.len() && due_key(self.entries@[j]) == q by {
                        if q != k {
                            let j = choose|j: int| 0 <= j < old_entries.len() && due_key(old_entries[j]) == q;
                            assert(due_key(self.entries@[j]) == q);
                        } else {
                            assert(due_key(self.entries@[n]) == q);
                        }
                    }
                    assert forall|a: int, b: int| 0 <= a < b < self.entries.len() implies
                        due_key(#[trigger] self.entries@[a]) != due_key(#[trigger] self.entries@[b]) by {
                        if b == n {
                            assert(old_entries.len() == n);
                            assert(self.entries@[a] == old_entries[a]);
                            assert(old_entries.contains(old_entries[a]));
                            assert(self.model@.contains_key(due_key(old_entries[a])) || true);
                        } else {
                            assert(due_key(old_entries[a]) != due_key(old_entries[b]));
                        }
                    }
                }
            },
        }
    }

    /// Drop the clocks of victims that are no longer present.
    pub fn retain_victims(&mut self, present: &Vec<EntityBits>)
        requires
            old(self).wf(),
        ensures
            final(self).wf(),
            final(self)@ == Map::new(
                |k: StandingKey| old(self)@.contains_key(k) && present@.contains(k.0),
                |k: StandingKey| old(self)@[k],
            ),
    {
        let ghost old_model = self.model@;
        let mut kept: Vec<DueEntry> = Vec::new();
        let ghost mut m: Map<StandingKey, Micros> = Map::empty();
        let mut i: usize = 0;
        while i < self.entries.len()
            invariant
                self.wf(),
                self.model@ == old_model,
                i <= self.entries.len(),
                forall|a: int| 0 <= a < kept.len() ==> {
                    &&& #[trigger] m.contains_key(due_key(kept@[a]))
                    &&& m[due_key(kept@[a])] == kept@[a].due
                },
                forall|k: StandingKey| #[trigger] m.contains_key(k) ==>
                    exists|a: int| 0 <= a < kept.len() && due_key(kept@[a]) == k,
                forall|a: int, b: int| 0 <= a < b < kept.len() ==>
                    due_key(#[trigger] kept@[a]) != due_key(#[trigger] kept@[b]),
                forall|k: StandingKey| #[trigger] m.contains_key(k) <==>
                    (present@.contains(k.0) && exists|j: int| 0 <= j < i && due_key(self.entries@[j]) == k),
                forall|k: StandingKey| #[trigger] m.contains_key(k) ==> m[k] == old_model[k],
            decreases self.entries.len() - i,
        {
            let e = &self.entries[i];
            if contains_entity(present, e.victim) {
                let ghost k = due_key(*e);
                proof {
                    assert(self.model@.contains_key(due_key(self.entries@[i as int])));
                    assert(!m.contains_key(k)) by {
                        if m.contains_key(k) {
                            let j = choose|j: int| 0 <= j < i && due_key(self.entries@[j]) == k;
                            assert(due_key(self.entries@[j]) != due_key(self.entries@[i as int]));
                        }
                    }
                }
                let ghost old_kept = kept@;
                kept.push(DueEntry { victim: e.victim, surface: e.surface.clone(), due: e.due });
                proof {
                    m = m.insert(k, e.due);
                    assert forall|q: StandingKey| #[trigger] m.contains_key(q) implies
                        exists|a: int| 0 <= a < kept.len() && due_key(kept@[a]) == q by {
                        if q != k {
                            let a = choose|a: int| 0 <= a < old_kept.len() && due_key(old_kept[a]) == q;
                            assert(due_key(kept@[a]) == q);
                        } else {
                            assert(due_key(kept@[old_kept.len() as int]) == q);
                        }
                    }
                    assert forall|a: int, b: int| 0 <= a < b < kept.len() implies
                        due_key(#[trigger] kept@[a]) != due_key(#[trigger] kept@[b]) by {
                        if b == old_kept.len() {
                            assert(kept@[a] == old_kept[a]);
                            assert(m.contains_key(due_key(old_kept[a])) || true);
                        } else {
                            assert(due_key(old_kept[a]) != due_key(old_kept[b]));
                        }
                    }
                    assert forall|q: StandingKey| #[trigger] m.contains_key(q) <==>
                        (present@.contains(q.0) && exists|j: int| 0 <= j < i + 1 && due_key(self.entries@[j]) == q) by {
                        if present@.contains(q.0) && exists|j: int| 0 <= j < i + 1 && due_key(self.entries@[j]) == q {
                            if q != k {
                                let j = choose|j: int| 0 <= j < i + 1 && due_key(self.entries@[j]) == q;
                                assert(j < i);
                            }
                        }
                    }
                }
            } else {
                proof {
                    assert forall|q: StandingKey| #[trigger] m.contains_key(q) <==>
                        (present@.contains(q.0) && exists|j: int| 0 <= j < i + 1 && due_key(self.entries@[j]) == q) by {
                        if present@.contains(q.0) && exists|j: int| 0 <= j < i + 1 && due_key(self.entries@[j]) == q {
                            let j = choose|j: int| 0 <= j < i + 1 && due_key(self.entries@[j]) == q;
                            if j == i {
                                assert(q.0 == self.entries@[i as int].victim);
                            }
                        }
                    }
                }
            }
            i += 1;
        }
        proof {
            assert forall|k: StandingKey| #[trigger] m.contains_key(k) <==>
                (old_model.contains_key(k) && present@.contains(k.0)) by {
                if old_model.contains_key(k) && present@.contains(k.0) {
                    let j = choose|j: int| 0 <= j < self.entries.len() && due_key(self.entries@[j]) == k;
                    assert(j < i);
                }
                if m.contains_key(k) {
                    let j = choose|j: int| 0 <= j < i && due_key(self.entries@[j]) == k;
                    assert(old_model.contains_key(due_key(self.entries@[j])));
                }
            }
            assert(m =~= Map::new(
                |k: StandingKey| old_model.contains_key(k) && present@.contains(k.0),
                |k: StandingKey| old_model[k],
            ));
        }
        self.entries = kept;
        self.model = Ghost(m);
        proof {
            assert forall|k: StandingKey| #[trigger] self.model@.contains_key(k) implies
                exists|a: int| 0 <= a < self.entries.len() && due_key(self.entries@[a]) == k by {
                let a = choose|a: int| 0 <= a < kept.len() && due_key(kept@[a]) == k;
                assert(due_key(self.entries@[a]) == k);
            }
        }
    }
}

} // verus!
