//! Per-cast runtime state: the phase clock and the phase schedule of collision windows.
use crate::assets::{CollisionWindow, WindowPhase, WindowSpawn};
use crate::ids::EntityBits;
use crate::units::{clamp_i64, sat_add, Micros};
use vstd::prelude::*;

verus! {

/// The phases of a cast, in order.
#[derive(Clone, Copy, Debug, PartialEq, Eq, Structural)]
pub enum SkillPhase {
    Windup,
    Active,
    Recovery,
    Done,
}

/// The position of a phase in the cast's order.
pub open spec fn phase_rank(p: SkillPhase) -> int {
    match p {
        SkillPhase::Windup => 0,
        SkillPhase::Active => 1,
        SkillPhase::Recovery => 2,
        SkillPhase::Done => 3,
    }
}

/// The phase a cast with the given (effective) durations is in at elapsed time `t`.
pub open spec fn phase_at_spec(windup: int, active: int, recovery: int, t: int) -> SkillPhase {
    if t < windup {
        SkillPhase::Windup
    } else if t < windup + active {
        SkillPhase::Active
    } else if t < windup + active + recovery {
        SkillPhase::Recovery
    } else {
        SkillPhase::Done
    }
}

/// When a window's schedule opens it, given the cast's effective windup and active durations:
/// its phase's start plus its offset. `Template` windows are never on the schedule.
pub open spec fn window_start_spec(windup: Micros, active: Micros, spawn: WindowSpawn) -> Option<Micros> {
    match spawn {
        WindowSpawn::Template => None,
        WindowSpawn::Scheduled { phase, offset } => {
            let base: Micros = match phase {
                WindowPhase::Windup => 0,
                WindowPhase::Active => windup,
                WindowPhase::Recovery => clamp_i64(windup + active) as Micros,
            };
            Some(clamp_i64(base + offset) as Micros)
        },
    }
}

/// The window start time (see [`window_start_spec`]).
pub fn window_start_time(windup: Micros, active: Micros, spawn: WindowSpawn) -> (r: Option<Micros>)
    ensures
        r == window_start_spec(windup, active, spawn),
{
    match spawn {
        WindowSpawn::Template => None,
        WindowSpawn::Scheduled { phase, offset } => {
            let base: Micros = match phase {
                WindowPhase::Windup => 0,
                WindowPhase::Active => windup,
                WindowPhase::Recovery => sat_add(windup, active),
            };
            Some(sat_add(base, offset))
        },
    }
}

/// Windows `0..n` of `ws` run through one schedule step from `prev` to `now`: the ids fired
/// so far (starting from `fired`) and the indices fired this step, in window order. A window
/// fires when its id has not fired yet and its start time lies in `(prev, now]`.
pub open spec fn schedule(
    ws: Seq<CollisionWindow>,
    n: int,
    fired: Seq<Seq<char>>,
    prev: Micros,
    now: Micros,
    windup: Micros,
    active: Micros,
) -> (Seq<Seq<char>>, Seq<int>)
    decreases n,
{
    if n <= 0 {
        (fired, Seq::empty())
    } else {
        let (f, out) = schedule(ws, n - 1, fired, prev, now, windup, active);
        let w = ws[n - 1];
        match window_start_spec(windup, active, w.spawn) {
            Some(s) => if !f.contains(w.id@) && prev < s && s <= now {
                (f.push(w.id@), out.push(n - 1))
            } else {
                (f, out)
            },
            None => (f, out),
        }
    }
}

/// Per-cast runtime state. Durations are the effective (speed-scaled) ones, fixed at cast start.
pub struct ActiveCast {
    pub skill_id: String,
    /// The aimed target entity, if any.
    pub target: Option<EntityBits>,
    pub phase: SkillPhase,
    pub elapsed: Micros,
    pub windup: Micros,
    pub active: Micros,
    pub recovery: Micros,
    /// Ids of the windows already spawned this cast (each opens once).
    pub fired_windows: Vec<String>,
    /// Optional per-cast charge.
    pub charge: Option<u8>,
}

/// What one step of a cast did.
pub struct CastStep {
    /// The phase transition this step made, if any: `(from, to)`.
    pub phase_change: Option<(SkillPhase, SkillPhase)>,
    /// Indices of the timeline windows whose start time was crossed this step, in window order.
    pub spawned: Vec<usize>,
    /// The cast reached `Done` and is over.
    pub finished: bool,
}

impl ActiveCast {
    /// The phase durations add up without overflow.
    pub open spec fn wf(&self) -> bool {
        &&& i64::MIN <= self.windup + self.active <= i64::MAX
        &&& i64::MIN <= self.windup + self.active + self.recovery <= i64::MAX
    }

    /// The ids of the windows fired so far.
    pub open spec fn fired_ids(&self) -> Seq<Seq<char>> {
        self.fired_windows@.map_values(|s: String| s@)
    }

    /// A fresh cast in `Windup` at time zero with no window fired.
    pub fn begin(
        skill_id: String,
        target: Option<EntityBits>,
        windup: Micros,
        active: Micros,
        recovery: Micros,
        charge: Option<u8>,
    ) -> (r: Self)
        requires
            i64::MIN <= windup + active <= i64::MAX,
            i64::MIN <= windup + active + recovery <= i64::MAX,
        ensures
            r.wf(),
            r.skill_id@ == skill_id@,
            r.target == target,
            r.phase == SkillPhase::Windup,
            r.elapsed == 0,
            r.windup == windup && r.active == active && r.recovery == recovery,
            r.fired_windows@.len() == 0,
            r.charge == charge,
    {
        ActiveCast {
            skill_id,
            target,
            phase: SkillPhase::Windup,
            elapsed: 0,
            windup,
            active,
            recovery,
            fired_windows: Vec::new(),
            charge,
        }
    }

    /// The whole cast's duration.
    pub fn total_duration(&self) -> (r: Micros)
        requires
            self.wf(),
        ensures
            r == self.windup + self.active + self.recovery,
    {
        self.windup + self.active + self.recovery
    }

    /// Which phase a given elapsed time falls in.
    pub fn phase_at(&self, t: Micros) -> (r: SkillPhase)
        requires
            self.wf(),
        ensures
            r == phase_at_spec(self.windup as int, self.active as int, self.recovery as int, t as int),
    {
        if t < self.windup {
            SkillPhase::Windup
        } else if t < self.windup + self.active {
            SkillPhase::Active
        } else if t < self.total_duration() {
            SkillPhase::Recovery
        } else {
            SkillPhase::Done
        }
    }

    fn has_fired(&self, id: &String) -> (r: bool)
        ensures
            r == self.fired_ids().contains(id@),
    {
        let mut i: usize = 0;
        while i < self.fired_windows.len()
            invariant
                i <= self.fired_windows.len(),
                forall|k: int| 0 <= k < i ==> (#[trigger] self.fired_windows@[k])@ != id@,
            decreases self.fired_windows.len() - i,
        {
            if self.fired_windows[i] == *id {
                proof {
                    assert(self.fired_ids()[i as int] == id@);
                }
                return true;
            }
            i += 1;
        }
        proof {
            if self.fired_ids().contains(id@) {
                let k = choose|k: int| 0 <= k < self.fired_ids().len() && self.fired_ids()[k] == id@;
                assert(self.fired_windows@[k]@ == id@);
            }
        }
        false
    }

    /// Advance the cast's clock by `dt`: report the phase transition (if any), open every window
    /// whose start time was crossed (once per window id), and report whether the cast is over.
    /// With no timeline (`None`), only the clock and phase move and the cast does not finish.
    pub fn advance(&mut self, dt: Micros, windows: Option<&Vec<CollisionWindow>>) -> (r: CastStep)
        requires
            old(self).wf(),
        ensures
            final(self).wf(),
            final(self).skill_id == old(self).skill_id,
            final(self).target == old(self).target,
            final(self).charge == old(self).charge,
            final(self).windup == old(self).windup,
            final(self).active == old(self).active,
            final(self).recovery == old(self).recovery,
            final(self).elapsed == clamp_i64(old(self).elapsed + dt),
            final(self).phase == phase_at_spec(old(self).windup as int, old(self).active as int, old(self).recovery as int, final(self).elapsed as int),
            r.phase_change == (if final(self).phase != old(self).phase {
                Some((old(self).phase, final(self).phase))
            } else {
                None::<(SkillPhase, SkillPhase)>
            }),
            match windows {
                None => {
                    &&& final(self).fired_windows@ == old(self).fired_windows@
                    &&& r.spawned@.len() == 0
                    &&& !r.finished
                },
                Some(ws) => {
                    &&& (final(self).fired_ids(), r.spawned@.map_values(|j: usize| j as int)) == schedule(
                        ws@, ws@.len() as int, old(self).fired_ids(), old(self).elapsed, final(self).elapsed,
                        old(self).windup, old(self).active)
                    &&& r.finished == (final(self).phase == SkillPhase::Done)
                },
            },
    {
        let prev_phase = self.phase;
        let prev_elapsed = self.elapsed;
        self.elapsed = sat_add(self.elapsed, dt);
        let new_phase = self.phase_at(self.elapsed);
        let phase_change = if new_phase != prev_phase {
            self.phase = new_phase;
            Some((prev_phase, new_phase))
        } else {
            None
        };
        let mut spawned: Vec<usize> = Vec::new();
        match windows {
            None => CastStep { phase_change, spawned, finished: false },
            Some(ws) => {
                let ghost fired0 = self.fired_ids();
                let mut j: usize = 0;
                while j < ws.len()
                    invariant
                        j <= ws.len(),
                        self.wf(),
                        self.skill_id == old(self).skill_id,
                        self.target == old(self).target,
                        self.charge == old(self).charge,
                        self.windup == old(self).windup,
                        self.active == old(self).active,
                        self.recovery == old(self).recovery,
                        self.elapsed == clamp_i64(old(self).elapsed + dt),
                        self.phase == new_phase,
                        prev_elapsed == old(self).elapsed,
                        (self.fired_ids(), spawned@.map_values(|k: usize| k as int)) == schedule(
                            ws@, j as int, fired0, prev_elapsed, self.elapsed, self.windup, self.active),
                    decreases ws.len() - j,
                {
                    let w = &ws[j];
                    let start = window_start_time(self.windup, self.active, w.spawn);
                    match start {
                        Some(s) => {
                            if !self.has_fired(&w.id) && prev_elapsed < s && s <= self.elapsed {
                                self.fired_windows.push(w.id.clone());
                                spawned.push(j);
                                proof {
                                    assert(self.fired_ids() =~= schedule(ws@, j as int, fired0, prev_elapsed, self.elapsed, self.windup, self.active).0.push(w.id@));
                                    assert(spawned@.map_values(|k: usize| k as int) =~= schedule(ws@, j as int, fired0, prev_elapsed, self.elapsed, self.windup, self.active).1.push(j as int));
                                }
                            }
                        },
                        None => {},
                    }
                    j += 1;
                }
                let finished = self.phase == SkillPhase::Done;
                CastStep { phase_change, spawned, finished }
            },
        }
    }
}

/// The phase never goes backwards as time moves forward.
pub proof fn lemma_phase_monotone(windup: int, active: int, recovery: int, t1: int, t2: int)
    requires
        t1 <= t2,
    ensures
        phase_rank(phase_at_spec(windup, active, recovery, t1)) <= phase_rank(phase_at_spec(windup, active, recovery, t2)),
{
}

/// Each phase holds from its own start up to (not including) the next one's: with non-negative
/// durations a cast is in `Windup` before the windup has elapsed, in `Active` from then until
/// the active time has also elapsed, in `Recovery` from then until the recovery has too.
pub proof fn lemma_phase_spans(windup: int, active: int, recovery: int, t: int)
    requires
        windup >= 0,
        active >= 0,
        recovery >= 0,
        t >= 0,
    ensures
        (phase_at_spec(windup, active, recovery, t) == SkillPhase::Windup) <==> t < windup,
        (phase_at_spec(windup, active, recovery, t) == SkillPhase::Active) <==> (windup <= t && t < windup + active),
        (phase_at_spec(windup, active, recovery, t) == SkillPhase::Recovery)
            <==> (windup + active <= t && t < windup + active + recovery),
{
}

/// A cast is `Done` exactly when its whole duration has elapsed (for non-negative durations).
pub proof fn lemma_done_iff_elapsed(windup: int, active: int, recovery: int, t: int)
    requires
        windup >= 0,
        active >= 0,
        recovery >= 0,
    ensures
        (phase_at_spec(windup, active, recovery, t) == SkillPhase::Done) <==> t >= windup + active + recovery,
{
}

/// One schedule step fires each window id at most once: the windows it fires had not fired
/// before, carry pairwise distinct ids, and are exactly what it appends to the fired ids.
pub proof fn lemma_schedule_fires_once(
    ws: Seq<CollisionWindow>,
    n: int,
    fired: Seq<Seq<char>>,
    prev: Micros,
    now: Micros,
    windup: Micros,
    active: Micros,
)
    requires
        0 <= n <= ws.len(),
    ensures
        ({
            let (f, out) = schedule(ws, n, fired, prev, now, windup, active);
            &&& f == fired + out.map_values(|j: int| ws[j].id@)
            &&& forall|a: int| 0 <= a < out.len() ==> 0 <= #[trigger] out[a] < n && !fired.contains(ws[out[a]].id@)
            &&& forall|a: int, b: int| 0 <= a < b < out.len() ==> ws[#[trigger] out[a]].id@ != ws[#[trigger] out[b]].id@
            &&& forall|a: int, b: int| 0 <= a < b < out.len() ==> #[trigger] out[a] < #[trigger] out[b]
        }),
    decreases n,
{
    if n > 0 {
        lemma_schedule_fires_once(ws, n - 1, fired, prev, now, windup, active);
        let (f0, out0) = schedule(ws, n - 1, fired, prev, now, windup, active);
        let (f, out) = schedule(ws, n, fired, prev, now, windup, active);
        let w = ws[n - 1];
        if out.len() > out0.len() {
            assert(f =~= fired + out.map_values(|j: int| ws[j].id@)) by {
                assert(out.map_values(|j: int| ws[j].id@) =~= out0.map_values(|j: int| ws[j].id@).push(w.id@));
            }
            assert(!f0.contains(w.id@));
            assert forall|a: int| 0 <= a < out.len() implies 0 <= #[trigger] out[a] < n && !fired.contains(ws[out[a]].id@) by {
                if a == out.len() - 1 {
                    assert(out[a] == n - 1);
                    if fired.contains(w.id@) {
                        let k = choose|k: int| 0 <= k < fired.len() && fired[k] == w.id@;
                        assert(f0[k] == w.id@);
                    }
                }
            }
            assert forall|a: int, b: int| 0 <= a < b < out.len() implies ws[#[trigger] out[a]].id@ != ws[#[trigger] out[b]].id@ by {
                if b == out.len() - 1 {
                    let idx = fired.len() + a;
                    assert(f0[idx] == ws[out0[a]].id@);
                }
            }
        }
    }
}

/// Every window a schedule step opens had its start time in the step: somewhere in `(prev, now]`.
proof fn lemma_schedule_in_step(
    ws: Seq<CollisionWindow>,
    n: int,
    fired: Seq<Seq<char>>,
    prev: Micros,
    now: Micros,
    windup: Micros,
    active: Micros,
    a: int,
)
    requires
        0 <= n <= ws.len(),
        0 <= a < schedule(ws, n, fired, prev, now, windup, active).1.len(),
    ensures
        ({
            let j = schedule(ws, n, fired, prev, now, windup, active).1[a];
            &&& 0 <= j < n
            &&& window_start_spec(windup, active, ws[j].spawn) matches Some(s) && prev < s && s <= now
        }),
    decreases n,
{
    if n > 0 {
        let out0 = schedule(ws, n - 1, fired, prev, now, windup, active).1;
        if a < out0.len() {
            lemma_schedule_in_step(ws, n - 1, fired, prev, now, windup, active, a);
        }
    }
}

/// A window the schedule has not reached yet stays open to a later window of the step: what the
/// first `n` windows open is kept by every longer prefix.
proof fn lemma_schedule_grows(
    ws: Seq<CollisionWindow>,
    n: int,
    m: int,
    fired: Seq<Seq<char>>,
    prev: Micros,
    now: Micros,
    windup: Micros,
    active: Micros,
    a: int,
)
    requires
        0 <= n <= m <= ws.len(),
        0 <= a < schedule(ws, n, fired, prev, now, windup, active).1.len(),
    ensures
        a < schedule(ws, m, fired, prev, now, windup, active).1.len(),
        schedule(ws, m, fired, prev, now, windup, active).1[a] == schedule(ws, n, fired, prev, now, windup, active).1[a],
    decreases m - n,
{
    if n < m {
        lemma_schedule_grows(ws, n, m - 1, fired, prev, now, windup, active, a);
    }
}

/// The cast schedule times a window by its phase: a `Windup` window opens at its offset, an
/// `Active` window at the windup plus its offset, a `Recovery` window at the windup plus the
/// active time plus its offset. Each window a step opens has that start time in the step,
/// `(prev, now]`, so a window with a non-negative offset never opens before its phase: an
/// `Active` window opens once the cast is past its windup, a `Recovery` window once it is past
/// its active phase. (Durations are non-negative and the times fit in an `i64`.)
pub proof fn lemma_schedule_opens_on_time(
    ws: Seq<CollisionWindow>,
    fired: Seq<Seq<char>>,
    prev: Micros,
    now: Micros,
    windup: Micros,
    active: Micros,
    recovery: Micros,
    a: int,
)
    requires
        0 <= windup,
        0 <= active,
        windup + active <= i64::MAX,
        forall|i: int| 0 <= i < ws.len() ==> ((#[trigger] ws[i]).spawn matches WindowSpawn::Scheduled { offset, .. }
            ==> windup + active + offset <= i64::MAX),
        0 <= a < schedule(ws, ws.len() as int, fired, prev, now, windup, active).1.len(),
    ensures
        ({
            let w = ws[schedule(ws, ws.len() as int, fired, prev, now, windup, active).1[a]];
            &&& (w.spawn matches WindowSpawn::Scheduled { phase, offset } && ({
                let start = offset + match phase {
                    WindowPhase::Windup => 0int,
                    WindowPhase::Active => windup as int,
                    WindowPhase::Recovery => windup + active,
                };
                prev < start && start <= now
            }))
            &&& (w.spawn matches WindowSpawn::Scheduled { phase: WindowPhase::Active, offset } ==> (offset >= 0
                ==> phase_rank(phase_at_spec(windup as int, active as int, recovery as int, now as int)) >= 1))
            &&& (w.spawn matches WindowSpawn::Scheduled { phase: WindowPhase::Recovery, offset } ==> (offset >= 0
                ==> phase_rank(phase_at_spec(windup as int, active as int, recovery as int, now as int)) >= 2))
        }),
{
    lemma_schedule_in_step(ws, ws.len() as int, fired, prev, now, windup, active, a);
    let j = schedule(ws, ws.len() as int, fired, prev, now, windup, active).1[a];
    assert(ws[j].spawn matches WindowSpawn::Scheduled { offset, .. } ==> windup + active + offset <= i64::MAX);
}

/// A step opens every window whose start time it crosses (its phase's start plus its offset
/// lies in `(prev, now]`) and that has not opened yet, when window ids are distinct.
pub proof fn lemma_schedule_opens_every_due_window(
    ws: Seq<CollisionWindow>,
    fired: Seq<Seq<char>>,
    prev: Micros,
    now: Micros,
    windup: Micros,
    active: Micros,
    i: int,
)
    requires
        0 <= windup,
        0 <= active,
        windup + active <= i64::MAX,
        0 <= i < ws.len(),
        forall|j: int| 0 <= j < ws.len() && j != i ==> (#[trigger] ws[j]).id@ != ws[i].id@,
        !fired.contains(ws[i].id@),
        ws[i].spawn matches WindowSpawn::Scheduled { phase, offset } && windup + active + offset <= i64::MAX && ({
            let start = offset + match phase {
                WindowPhase::Windup => 0int,
                WindowPhase::Active => windup as int,
                WindowPhase::Recovery => windup + active,
            };
            prev < start && start <= now
        }),
    ensures
        exists|a: int| 0 <= a < schedule(ws, ws.len() as int, fired, prev, now, windup, active).1.len()
            && schedule(ws, ws.len() as int, fired, prev, now, windup, active).1[a] == i,
{
    let n = i + 1;
    let (f0, out0) = schedule(ws, i, fired, prev, now, windup, active);
    lemma_schedule_fires_once(ws, i, fired, prev, now, windup, active);
    if f0.contains(ws[i].id@) {
        let k = choose|k: int| 0 <= k < f0.len() && f0[k] == ws[i].id@;
        if k >= fired.len() {
            let b = k - fired.len();
            assert(f0[k] == ws[out0[b]].id@);
        }
    }
    let out = schedule(ws, n, fired, prev, now, windup, active).1;
    assert(out == out0.push(i));
    let a = out0.len() as int;
    lemma_schedule_grows(ws, n, ws.len() as int, fired, prev, now, windup, active, a);
}

} // verus!
