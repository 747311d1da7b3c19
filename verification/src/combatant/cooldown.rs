use crate::ids::EntityBits;
use crate::units::{clamp_i64, sat_sub, Micros};
use vstd::prelude::*;

verus! {

/// A cooldown key: the casting entity and the skill id.
pub type CooldownKey = (EntityBits, Seq<char>);

struct CooldownEntry {
    entity: EntityBits,
    skill: String,
    remaining: Micros,
}

/// Per-(entity, skill) cooldown timers. A key that is absent (or has run down to zero) is ready.
pub struct Cooldowns {
    entries: Vec<CooldownEntry>,
    model: Ghost<Map<CooldownKey, Micros>>,
}

spec fn entry_key(e: CooldownEntry) -> CooldownKey {
    (e.entity, e.skill@)
}

/// The remaining time of a running timer after one step of `dt`.
pub open spec fn stepped(rem: Micros, dt: Micros) -> Micros {
    clamp_i64(rem - dt) as Micros
}

/// The timers still running after a step of `dt`: each decreased by `dt`, those at or below zero gone.
pub open spec fn after_tick(m: Map<CooldownKey, Micros>, dt: Micros) -> Map<CooldownKey, Micros> {
    Map::new(|k: CooldownKey| m.contains_key(k) && stepped(m[k], dt) > 0, |k: CooldownKey| stepped(m[k], dt))
}

/// The keys whose timers reach zero during a step of `dt`.
pub open spec fn ready_after_tick(m: Map<CooldownKey, Micros>, dt: Micros) -> Set<CooldownKey> {
    Set::new(|k: CooldownKey| m.contains_key(k) && stepped(m[k], dt) <= 0)
}

/// `skill` is ready for `e` in timer state `m`.
pub open spec fn ready_in(m: Map<CooldownKey, Micros>, e: EntityBits, skill: Seq<char>) -> bool {
    !m.contains_key((e, skill)) || m[(e, skill)] <= 0
}

impl View for Cooldowns {
    type V = Map<CooldownKey, Micros>;

    closed spec fn view(&self) -> Map<CooldownKey, Micros> {
        self.model@
    }
}

impl Cooldowns {
    /// Internal consistency: the stored timers are distinct, running, and exactly the model.
    pub closed spec fn wf(&self) -> bool {
        &&& forall|i: int| 0 <= i < self.entries.len() ==> {
            &&& #[trigger] self.model@.contains_key(entry_key(self.entries@[i]))
            &&& self.model@[entry_key(self.entries@[i])] == self.entries@[i].remaining
            &&& self.entries@[i].remaining > 0
        }
        &&& forall|k: CooldownKey| #[trigger] self.model@.contains_key(k) ==>
            exists|i: int| 0 <= i < self.entries.len() && entry_key(self.entries@[i]) == k
        &&& forall|i: int, j: int| 0 <= i < j < self.entries.len() ==>
            entry_key(#[trigger] self.entries@[i]) != entry_key(#[trigger] self.entries@[j])
    }

    /// No running timers.
    pub fn new() -> (r: Self)
        ensures
            r.wf(),
            r@ == Map::<CooldownKey, Micros>::empty(),
    {
        Cooldowns { entries: Vec::new(), model: Ghost(Map::empty()) }
    }

    /// Every stored timer is positive.
    pub proof fn lemma_running_positive(&self, k: CooldownKey)
        requires
            self.wf(),
            self@.contains_key(k),
        ensures
            self@[k] > 0,
    {
        let i = choose|i: int| 0 <= i < self.entries.len() && entry_key(self.entries@[i]) == k;
        assert(self.model@.contains_key(entry_key(self.entries@[i])));
    }

    fn find(&self, e: EntityBits, skill: &String) -> (r: Option<usize>)
        requires
            self.wf(),
        ensures
            match r {
                Some(i) => i < self.entries.len() && entry_key(self.entries@[i as int]) == (e, skill@),
                None => !self@.contains_key((e, skill@)),
            },
    {
        let mut i: usize = 0;
        while i < self.entries.len()
            invariant
                self.wf(),
                i <= self.entries.len(),
                forall|j: int| 0 <= j < i ==> entry_key(#[trigger] self.entries@[j]) != (e, skill@),
            decreases self.entries.len() - i,
        {
            if self.entries[i].entity == e && self.entries[i].skill == *skill {
                return Some(i);
            }
            i += 1;
        }
        proof {
            if self@.contains_key((e, skill@)) {
                let j = choose|j: int| 0 <= j < self.entries.len() && entry_key(self.entries@[j]) == (e, skill@);
                assert(entry_key(self.entries@[j]) != (e, skill@));
            }
        }
        None
    }

    /// Whether `skill` is off cooldown for `e` (absent or run down).
    pub fn is_ready(&self, e: EntityBits, skill: &str) -> (r: bool)
        requires
            self.wf(),
        ensures
            r == ready_in(self@, e, skill@),
    {
        let s = skill.to_owned();
        match self.find(e, &s) {
            Some(i) => {
                proof { self.lemma_running_positive((e, skill@)); }
                self.entries[i].remaining <= 0
            },
            None => true,
        }
    }

    /// Time left on `e`'s `skill` timer; zero when none is running.
    pub fn remaining(&self, e: EntityBits, skill: &str) -> (r: Micros)
        requires
            self.wf(),
        ensures
            r == (if self@.contains_key((e, skill@)) { self@[(e, skill@)] } else { 0 }),
    {
        let s = skill.to_owned();
        match self.find(e, &s) {
            Some(i) => self.entries[i].remaining,
            None => 0,
        }
    }

    /// Start (or restart) `e`'s `skill` timer at `duration`; a non-positive duration is a no-op.
    pub fn start(&mut self, e: EntityBits, skill: &str, duration: Micros)
        requires
            old(self).wf(),
        ensures
            final(self).wf(),
            final(self)@ == (if duration > 0 { old(self)@.insert((e, skill@), duration) } else { old(self)@ }),
    {
        if duration <= 0 {
            return;
        }
        let s = skill.to_owned();
        match self.find(e, &s) {
            Some(i) => {
                let ghost old_entries = self.entries@;
                self.entries.set(i, CooldownEntry { entity: e, skill: s, remaining: duration });
                proof {
                    self.model@ = self.model@.insert((e, skill@), duration);
                    assert forall|k: CooldownKey| #[trigger] self.model@.contains_key(k) implies
                        exists|j: int| 0 <= j < self.entries.len() && entry_key(self.entries@[j]) == k by {
                        if k != (e, skill@) {
                            let j = choose|j: int| 0 <= j < old_entries.len() && entry_key(old_entries[j]) == k;
                            assert(entry_key(self.entries@[j]) == k);
                        } else {
                            assert(entry_key(self.entries@[i as int]) == k);
                        }
                    }
                    assert forall|a: int, b: int| 0 <= a < b < self.entries.len() implies
                        entry_key(#[trigger] self.entries@[a]) != entry_key(#[trigger] self.entries@[b]) by {
                        if a != i && b != i {
                            assert(entry_key(old_entries[a]) != entry_key(old_entries[b]));
                        }
                    }
                }
            },
            None => {
                let ghost old_entries = self.entries@;
                self.entries.push(CooldownEntry { entity: e, skill: s, remaining: duration });
                proof {
                    self.model@ = self.model@.insert((e, skill@), duration);
                    let n = old_entries.len() as int;
                    assert forall|k: CooldownKey| #[trigger] self.model@.contains_key(k) implies
                        exists|j: int| 0 <= j < self.entries.len() && entry_key(self.entries@[j]) == k by {
                        if k != (e, skill@) {
                            let j = choose|j: int| 0 <= j < old_entries.len() && entry_key(old_entries[j]) == k;
                            assert(entry_key(self.entries@[j]) == k);
                        } else {
                            assert(entry_key(self.entries@[n]) == k);
                        }
                    }
                    assert forall|a: int, b: int| 0 <= a < b < self.entries.len() implies
                        entry_key(#[trigger] self.entries@[a]) != entry_key(#[trigger] self.entries@[b]) by {
                        if b == n {
                            assert(old(self).model@.contains_key(entry_key(old_entries[a])));
                        } else {
                            assert(entry_key(old_entries[a]) != entry_key(old_entries[b]));
                        }
                    }
                }
            },
        }
    }

    /// Advance every timer by `dt`. Timers that reach zero are removed and their keys returned
    /// (each once, in storage order); the rest keep running, decreased by `dt`.
    pub fn tick(&mut self, dt: Micros) -> (ready: Vec<(EntityBits, String)>)
        requires
            old(self).wf(),
        ensures
            final(self).wf(),
            final(self)@ == after_tick(old(self)@, dt),
            forall|i: int| 0 <= i < ready.len() ==> ready_after_tick(old(self)@, dt).contains(
                ((#[trigger] ready@[i]).0, ready@[i].1@),
            ),
            forall|k: CooldownKey| #[trigger] ready_after_tick(old(self)@, dt).contains(k) ==>
                exists|i: int| 0 <= i < ready.len() && (ready@[i].0, ready@[i].1@) == k,
            forall|i: int, j: int| 0 <= i < j < ready.len() ==>
                ((#[trigger] ready@[i]).0, ready@[i].1@) != ((#[trigger] ready@[j]).0, ready@[j].1@),
    {
        let ghost old_model = self.model@;
        let ghost old_entries = self.entries@;
        let mut kept: Vec<CooldownEntry> = Vec::new();
        let mut ready: Vec<(EntityBits, String)> = Vec::new();
        let n = self.entries.len();
        let mut i: usize = 0;
        while i < n
            invariant
                self.entries@ == old_entries,
                n == old_entries.len(),
                i <= n,
                kept@.map_values(|e: CooldownEntry| entry_pair(e)) == kept_of(old_entries.take(i as int), dt),
                ready@.map_values(|r: (EntityBits, String)| (r.0, r.1@)) == ready_of(old_entries.take(i as int), dt),
            decreases n - i,
        {
            let rem = sat_sub(self.entries[i].remaining, dt);
            let entity = self.entries[i].entity;
            let skill = self.entries[i].skill.clone();
            proof {
                assert(old_entries.take(i as int + 1).drop_last() =~= old_entries.take(i as int));
            }
            if rem <= 0 {
                ready.push((entity, skill));
                proof {
                    assert(ready@.map_values(|r: (EntityBits, String)| (r.0, r.1@)) =~= ready_of(old_entries.take(i as int + 1), dt));
                    assert(kept@.map_values(|e: CooldownEntry| entry_pair(e)) =~= kept_of(old_entries.take(i as int + 1), dt));
                }
            } else {
                kept.push(CooldownEntry { entity, skill, remaining: rem });
                proof {
                    assert(ready@.map_values(|r: (EntityBits, String)| (r.0, r.1@)) =~= ready_of(old_entries.take(i as int + 1), dt));
                    assert(kept@.map_values(|e: CooldownEntry| entry_pair(e)) =~= kept_of(old_entries.take(i as int + 1), dt));
                }
            }
            i += 1;
        }
        proof {
            assert(old_entries.take(n as int) =~= old_entries);
            assert forall|b: int| 0 <= b < n implies old_model.contains_key(entry_key(#[trigger] old_entries[b]))
                && old_model[entry_key(old_entries[b])] == old_entries[b].remaining by {
                assert(self.model@.contains_key(entry_key(self.entries@[b])));
            }
            lemma_split(old_entries, dt);
        }
        let ghost km = kept@.map_values(|e: CooldownEntry| entry_pair(e));
        let ghost rm = ready@.map_values(|r: (EntityBits, String)| (r.0, r.1@));
        self.entries = kept;
        self.model = Ghost(after_tick(old_model, dt));
        proof {
            assert forall|a: int| 0 <= a < self.entries.len() implies {
                &&& #[trigger] self.model@.contains_key(entry_key(self.entries@[a]))
                &&& self.model@[entry_key(self.entries@[a])] == self.entries@[a].remaining
                &&& self.entries@[a].remaining > 0
            } by {
                assert(km[a] == entry_pair(self.entries@[a]));
                let b = choose|b: int| 0 <= b < n && km[a] == (entry_key(old_entries[b]), stepped(old_entries[b].remaining, dt))
                    && stepped(old_entries[b].remaining, dt) > 0;
                assert(old_model.contains_key(entry_key(old_entries[b])));
            }
            assert forall|k: CooldownKey| #[trigger] self.model@.contains_key(k) implies
                exists|a: int| 0 <= a < self.entries.len() && entry_key(self.entries@[a]) == k by {
                let b = choose|b: int| 0 <= b < n && entry_key(old_entries[b]) == k;
                assert(old_model.contains_key(entry_key(old_entries[b])));
                let a = choose|a: int| 0 <= a < km.len() && km[a].0 == entry_key(old_entries[b]);
                assert(km[a] == entry_pair(self.entries@[a]));
            }
            assert forall|a: int, c: int| 0 <= a < c < self.entries.len() implies
                entry_key(#[trigger] self.entries@[a]) != entry_key(#[trigger] self.entries@[c]) by {
                assert(km[a] == entry_pair(self.entries@[a]));
                assert(km[c] == entry_pair(self.entries@[c]));
            }
            assert forall|k: CooldownKey| #[trigger] ready_after_tick(old_model, dt).contains(k) implies
                exists|a: int| 0 <= a < ready.len() && (ready@[a].0, ready@[a].1@) == k by {
                let b = choose|b: int| 0 <= b < n && entry_key(old_entries[b]) == k;
                assert(old_model.contains_key(entry_key(old_entries[b])));
                let a = choose|a: int| 0 <= a < rm.len() && rm[a] == entry_key(old_entries[b]);
                assert(rm[a] == (ready@[a].0, ready@[a].1@));
            }
            assert forall|a: int| 0 <= a < ready.len() implies ready_after_tick(old_model, dt).contains(
                ((#[trigger] ready@[a]).0, ready@[a].1@)) by {
                assert(rm[a] == (ready@[a].0, ready@[a].1@));
                let b = choose|b: int| 0 <= b < n && rm[a] == entry_key(old_entries[b])
                    && stepped(old_entries[b].remaining, dt) <= 0;
                assert(old_model.contains_key(entry_key(old_entries[b])));
            }
            assert forall|a: int, c: int| 0 <= a < c < ready.len() implies
                ((#[trigger] ready@[a]).0, ready@[a].1@) != ((#[trigger] ready@[c]).0, ready@[c].1@) by {
                assert(rm[a] == (ready@[a].0, ready@[a].1@));
                assert(rm[c] == (ready@[c].0, ready@[c].1@));
            }
        }
        ready
    }
}

spec fn entry_pair(e: CooldownEntry) -> (CooldownKey, Micros) {
    (entry_key(e), e.remaining)
}

/// The timers of `es` that survive a step of `dt`, in order, with their new values.
spec fn kept_of(es: Seq<CooldownEntry>, dt: Micros) -> Seq<(CooldownKey, Micros)>
    decreases es.len(),
{
    if es.len() == 0 {
        Seq::empty()
    } else {
        let p = kept_of(es.drop_last(), dt);
        let e = es.last();
        if stepped(e.remaining, dt) > 0 {
            p.push((entry_key(e), stepped(e.remaining, dt)))
        } else {
            p
        }
    }
}

/// The keys of `es` whose timers run out during a step of `dt`, in order.
spec fn ready_of(es: Seq<CooldownEntry>, dt: Micros) -> Seq<CooldownKey>
    decreases es.len(),
{
    if es.len() == 0 {
        Seq::empty()
    } else {
        let p = ready_of(es.drop_last(), dt);
        let e = es.last();
        if stepped(e.remaining, dt) <= 0 {
            p.push(entry_key(e))
        } else {
            p
        }
    }
}

#[verifier::spinoff_prover]
#[verifier::rlimit(40)]
proof fn lemma_split(es: Seq<CooldownEntry>, dt: Micros)
    requires
        forall|i: int, j: int| 0 <= i < j < es.len() ==> entry_key(#[trigger] es[i]) != entry_key(#[trigger] es[j]),
    ensures
        forall|a: int| 0 <= a < kept_of(es, dt).len() ==> exists|b: int| 0 <= b < es.len()
            && #[trigger] kept_of(es, dt)[a] == (entry_key(es[b]), stepped(es[b].remaining, dt))
            && stepped(es[b].remaining, dt) > 0,
        forall|b: int| 0 <= b < es.len() && stepped(#[trigger] es[b].remaining, dt) > 0 ==>
            exists|a: int| 0 <= a < kept_of(es, dt).len() && kept_of(es, dt)[a].0 == entry_key(es[b]),
        forall|a: int, c: int| 0 <= a < c < kept_of(es, dt).len() ==>
            (#[trigger] kept_of(es, dt)[a]).0 != (#[trigger] kept_of(es, dt)[c]).0,
        forall|a: int| 0 <= a < ready_of(es, dt).len() ==> exists|b: int| 0 <= b < es.len()
            && #[trigger] ready_of(es, dt)[a] == entry_key(es[b])
            && stepped(es[b].remaining, dt) <= 0,
        forall|b: int| 0 <= b < es.len() && stepped(#[trigger] es[b].remaining, dt) <= 0 ==>
            exists|a: int| 0 <= a < ready_of(es, dt).len() && ready_of(es, dt)[a] == entry_key(es[b]),
        forall|a: int, c: int| 0 <= a < c < ready_of(es, dt).len() ==>
            #[trigger] ready_of(es, dt)[a] != #[trigger] ready_of(es, dt)[c],
    decreases es.len(),
{
    if es.len() > 0 {
        let p = es.drop_last();
        let last = es.len() - 1;
        lemma_split(p, dt);
        let kp = kept_of(p, dt);
        let rp = ready_of(p, dt);
        let k = kept_of(es, dt);
        let r = ready_of(es, dt);
        assert forall|a: int| 0 <= a < k.len() implies exists|b: int| 0 <= b < es.len()
            && #[trigger] k[a] == (entry_key(es[b]), stepped(es[b].remaining, dt))
            && stepped(es[b].remaining, dt) > 0 by {
            if a < kp.len() {
                let b = choose|b: int| 0 <= b < p.len()
                    && kp[a] == (entry_key(p[b]), stepped(p[b].remaining, dt))
                    && stepped(p[b].remaining, dt) > 0;
                assert(p[b] == es[b]);
            } else {
                assert(k[a] == (entry_key(es[last]), stepped(es[last].remaining, dt)));
            }
        }
        assert forall|b: int| 0 <= b < es.len() && stepped(#[trigger] es[b].remaining, dt) > 0 implies
            exists|a: int| 0 <= a < k.len() && k[a].0 == entry_key(es[b]) by {
            if b < last {
                assert(p[b] == es[b]);
                let a = choose|a: int| 0 <= a < kp.len() && kp[a].0 == entry_key(p[b]);
                assert(k[a] == kp[a]);
            } else {
                assert(k[kp.len() as int].0 == entry_key(es[b]));
            }
        }
        assert forall|a: int, c: int| 0 <= a < c < k.len() implies (#[trigger] k[a]).0 != (#[trigger] k[c]).0 by {
            if c < kp.len() {
                assert(k[a] == kp[a] && k[c] == kp[c]);
            } else {
                let b = choose|b: int| 0 <= b < p.len()
                    && kp[a] == (entry_key(p[b]), stepped(p[b].remaining, dt))
                    && stepped(p[b].remaining, dt) > 0;
                assert(p[b] == es[b]);
                assert(entry_key(es[b]) != entry_key(es[last]));
            }
        }
        assert forall|a: int| 0 <= a < r.len() implies exists|b: int| 0 <= b < es.len()
            && #[trigger] r[a] == entry_key(es[b])
            && stepped(es[b].remaining, dt) <= 0 by {
            if a < rp.len() {
                let b = choose|b: int| 0 <= b < p.len() && rp[a] == entry_key(p[b])
                    && stepped(p[b].remaining, dt) <= 0;
                assert(p[b] == es[b]);
            } else {
                assert(r[a] == entry_key(es[last]));
            }
        }
        assert forall|b: int| 0 <= b < es.len() && stepped(#[trigger] es[b].remaining, dt) <= 0 implies
            exists|a: int| 0 <= a < r.len() && r[a] == entry_key(es[b]) by {
            if b < last {
                assert(p[b] == es[b]);
                let a = choose|a: int| 0 <= a < rp.len() && rp[a] == entry_key(p[b]);
                assert(r[a] == rp[a]);
            } else {
                assert(r[rp.len() as int] == entry_key(es[b]));
            }
        }
        assert forall|a: int, c: int| 0 <= a < c < r.len() implies #[trigger] r[a] != #[trigger] r[c] by {
            if c < rp.len() {
                assert(r[a] == rp[a] && r[c] == rp[c]);
            } else {
                let b = choose|b: int| 0 <= b < p.len() && rp[a] == entry_key(p[b])
                    && stepped(p[b].remaining, dt) <= 0;
                assert(p[b] == es[b]);
                assert(entry_key(es[b]) != entry_key(es[last]));
            }
        }
    }
}


/// A cooldown started at `d > 0` keeps the skill busy until steps totalling at least `d` have
/// passed: after one step of `dt` (with `0 <= dt`), the skill is ready exactly when `dt >= d`,
/// and otherwise `d - dt` remains; timers of other keys are untouched by the start.
pub proof fn lemma_cooldown_runs_down(m: Map<CooldownKey, Micros>, e: EntityBits, skill: Seq<char>, d: Micros, dt: Micros)
    requires
        d > 0,
        dt >= 0,
    ensures
        ready_in(after_tick(m.insert((e, skill), d), dt), e, skill) == (dt >= d),
        dt < d ==> after_tick(m.insert((e, skill), d), dt)[(e, skill)] == d - dt,
        !ready_in(m.insert((e, skill), d), e, skill),
{
    let m2 = m.insert((e, skill), d);
    assert(m2.contains_key((e, skill)) && m2[(e, skill)] == d);
    assert(stepped(d, dt) == d - dt);
}

impl Default for Cooldowns {
    /// No running timers.
    fn default() -> (r: Self)
        ensures
            r.wf(),
            r@ == Map::<CooldownKey, Micros>::empty(),
    {
        Cooldowns::new()
    }
}

} // verus!
