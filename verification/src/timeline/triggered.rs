//! A skill timeline executed detached from any caster's cast state (a free sub-cast fired by a
//! trigger), on its own virtual clock.
use crate::assets::{CastTimeline, CollisionWindow, PhaseDurations, WindowPhase, WindowSpawn};
use crate::ids::EntityBits;
use crate::timeline::state::{window_start_spec, window_start_time};
use crate::units::{clamp_i64, sat_add, Micros};
use vstd::prelude::*;

verus! {

/// Trigger-generation recursion cap: executions at or past this depth are refused.
pub const MAX_TRIGGER_DEPTH: u8 = 8;

/// A skill timeline running on its own clock. `spawned[i]` records whether window `i` has
/// spawned (or, for a `Template` window, been permanently skipped).
pub struct TriggeredExec {
    pub caster: EntityBits,
    pub skill_id: String,
    /// Designated beam target, if any.
    pub target: Option<EntityBits>,
    pub charge: Option<u8>,
    /// Trigger-generation depth (0 = a player cast).
    pub depth: u8,
    pub elapsed: Micros,
    pub spawned: Vec<bool>,
}

/// What one step of a triggered execution did.
pub enum ExecStep {
    /// The skill has no registered timeline at all: the execution is dropped.
    Dropped,
    /// The timeline is registered but not loaded yet: nothing moved; retry next step.
    Waiting,
    /// The clock advanced; `spawned` lists the windows to spawn now (in window order), and
    /// `finished` says every window has spawned or been skipped.
    Ran { spawned: Vec<usize>, finished: bool },
}

/// Window `w` is due at elapsed time `t` (its start time has come).
pub open spec fn exec_due(w: CollisionWindow, d: PhaseDurations, t: Micros) -> bool {
    match window_start_spec(d.windup, d.active, w.spawn) {
        Some(s) => s <= t,
        None => false,
    }
}

/// The window's flag after a step at elapsed `t`, from its flag before.
pub open spec fn next_flag(flag: bool, w: CollisionWindow, d: PhaseDurations, t: Micros) -> bool {
    flag || w.spawn is Template || exec_due(w, d, t)
}

/// The window spawns in a step at elapsed `t`.
pub open spec fn exec_fires(flag: bool, w: CollisionWindow, d: PhaseDurations, t: Micros) -> bool {
    !flag && !(w.spawn is Template) && exec_due(w, d, t)
}

/// The flag of window `i` before a step (windows beyond the recorded flags count as unspawned).
pub open spec fn flag_before(flags: Seq<bool>, i: int) -> bool {
    i < flags.len() && flags[i]
}

/// Queue `skill_id`'s timeline as a free sub-cast at trigger depth `depth`; refused (`None`) at or
/// past [`MAX_TRIGGER_DEPTH`].
pub fn execute_skill_timeline(
    caster: EntityBits,
    skill_id: &str,
    target: Option<EntityBits>,
    charge: Option<u8>,
    depth: u8,
) -> (r: Option<TriggeredExec>)
    ensures
        depth >= MAX_TRIGGER_DEPTH <==> r is None,
        r matches Some(x) ==> {
            &&& x.caster == caster
            &&& x.skill_id@ == skill_id@
            &&& x.target == target
            &&& x.charge == charge
            &&& x.depth == depth
            &&& x.elapsed == 0
            &&& x.spawned@.len() == 0
        },
{
    if depth >= MAX_TRIGGER_DEPTH {
        return None;
    }
    Some(TriggeredExec {
        caster,
        skill_id: skill_id.to_owned(),
        target,
        charge,
        depth,
        elapsed: 0,
        spawned: Vec::new(),
    })
}

fn all_set(flags: &Vec<bool>) -> (r: bool)
    ensures
        r == forall|m: int| 0 <= m < flags@.len() ==> #[trigger] flags@[m],
{
    let mut k: usize = 0;
    while k < flags.len()
        invariant
            k <= flags.len(),
            forall|m: int| 0 <= m < k ==> #[trigger] flags@[m],
        decreases flags.len() - k,
    {
        if !flags[k] {
            return false;
        }
        k += 1;
    }
    true
}

/// One run step of an execution, from `pre` to `post` under timeline `tl`, spawning the
/// windows `spawned` and finishing iff `finished`.
pub open spec fn exec_step_spec(
    pre: TriggeredExec,
    post: TriggeredExec,
    dt: Micros,
    tl: CastTimeline,
    spawned: Seq<usize>,
    finished: bool,
) -> bool {
    let ws = tl.collision_windows@;
    let d = tl.phase_durations;
    let flags = pre.spawned@;
    let t = post.elapsed;
    &&& post.caster == pre.caster
    &&& post.skill_id == pre.skill_id
    &&& post.target == pre.target
    &&& post.charge == pre.charge
    &&& post.depth == pre.depth
    &&& t == clamp_i64(pre.elapsed + dt)
    &&& post.spawned@.len() == if flags.len() < ws.len() { ws.len() } else { flags.len() }
    &&& forall|i: int| 0 <= i < ws.len() ==> #[trigger] post.spawned@[i] == next_flag(flag_before(flags, i), ws[i], d, t)
    &&& forall|i: int| ws.len() <= i < flags.len() ==> #[trigger] post.spawned@[i] == flags[i]
    &&& forall|a: int| 0 <= a < spawned.len() ==> {
        &&& 0 <= #[trigger] spawned[a] < ws.len()
        &&& exec_fires(flag_before(flags, spawned[a] as int), ws[spawned[a] as int], d, t)
    }
    &&& forall|i: int| 0 <= i < ws.len() && exec_fires(flag_before(flags, i), #[trigger] ws[i], d, t) ==>
        exists|a: int| 0 <= a < spawned.len() && spawned[a] == i
    &&& forall|a: int, b: int| 0 <= a < b < spawned.len() ==> #[trigger] spawned[a] < #[trigger] spawned[b]
    &&& finished == forall|i: int| 0 <= i < post.spawned@.len() ==> #[trigger] post.spawned@[i]
}

impl TriggeredExec {
    /// Advance the execution by `dt`. `registered` says the skill has a timeline handle;
    /// `timeline` is the loaded timeline, if it has arrived. Windows are timed by the authored
    /// (unscaled) phase durations; a window spawns once its start time has come.
    pub fn advance(&mut self, dt: Micros, registered: bool, timeline: Option<&CastTimeline>) -> (r: ExecStep)
        ensures
            !registered ==> r is Dropped && *final(self) == *old(self),
            registered && timeline is None ==> r is Waiting && *final(self) == *old(self),
            registered && timeline is Some ==> r is Ran,
            r matches ExecStep::Ran { spawned, finished } ==> exec_step_spec(
                *old(self), *final(self), dt, *timeline->0, spawned@, finished),
    {
        if !registered {
            return ExecStep::Dropped;
        }
        let tl = match timeline {
            None => return ExecStep::Waiting,
            Some(tl) => tl,
        };
        let ws = &tl.collision_windows;
        let d = tl.phase_durations;
        self.elapsed = sat_add(self.elapsed, dt);
        let ghost flags = self.spawned@;
        while self.spawned.len() < ws.len()
            invariant
                self.caster == old(self).caster,
                self.skill_id == old(self).skill_id,
                self.target == old(self).target,
                self.charge == old(self).charge,
                self.depth == old(self).depth,
                self.elapsed == clamp_i64(old(self).elapsed + dt),
                flags.len() <= self.spawned@.len() <= if flags.len() < ws@.len() { ws@.len() } else { flags.len() },
                forall|i: int| 0 <= i < flags.len() ==> #[trigger] self.spawned@[i] == flags[i],
                forall|i: int| flags.len() <= i < self.spawned@.len() ==> !#[trigger] self.spawned@[i],
            decreases ws.len() - self.spawned.len(),
        {
            self.spawned.push(false);
        }
        let ghost padded = self.spawned@;
        let mut spawned: Vec<usize> = Vec::new();
        let mut i: usize = 0;
        while i < ws.len()
            invariant
                self.caster == old(self).caster,
                self.skill_id == old(self).skill_id,
                self.target == old(self).target,
                self.charge == old(self).charge,
                self.depth == old(self).depth,
                self.elapsed == clamp_i64(old(self).elapsed + dt),
                i <= ws.len() <= self.spawned@.len(),
                self.spawned@.len() == padded.len(),
                forall|k: int| 0 <= k < padded.len() ==> #[trigger] padded[k] == flag_before(flags, k),
                forall|k: int| 0 <= k < i ==> #[trigger] self.spawned@[k] == next_flag(padded[k], ws@[k], d, self.elapsed),
                forall|k: int| i <= k < padded.len() ==> #[trigger] self.spawned@[k] == padded[k],
                forall|a: int| 0 <= a < spawned.len() ==> {
                    &&& 0 <= #[trigger] spawned@[a] < i
                    &&& exec_fires(padded[spawned@[a] as int], ws@[spawned@[a] as int], d, self.elapsed)
                },
                forall|k: int| 0 <= k < i && exec_fires(padded[k], #[trigger] ws@[k], d, self.elapsed) ==>
                    exists|a: int| 0 <= a < spawned.len() && spawned@[a] == k,
                forall|a: int, b: int| 0 <= a < b < spawned.len() ==> #[trigger] spawned@[a] < #[trigger] spawned@[b],
            decreases ws.len() - i,
        {
            if !self.spawned[i] {
                let w = &ws[i];
                if w.spawn == WindowSpawn::Template {
                    self.spawned.set(i, true);
                } else {
                    match window_start_time(d.windup, d.active, w.spawn) {
                        Some(start) => {
                            if self.elapsed >= start {
                                self.spawned.set(i, true);
                                let ghost before = spawned@;
                                spawned.push(i);
                                proof {
                                    assert forall|k: int| 0 <= k < i + 1 && exec_fires(padded[k], #[trigger] ws@[k], d, self.elapsed) implies
                                        exists|a: int| 0 <= a < spawned.len() && spawned@[a] == k by {
                                        if k < i {
                                            let a = choose|a: int| 0 <= a < before.len() && before[a] == k;
                                            assert(spawned@[a] == k);
                                        } else {
                                            assert(spawned@[spawned.len() - 1] == k);
                                        }
                                    }
                                }
                            }
                        },
                        None => {},
                    }
                }
            }
            i += 1;
        }
        let finished = all_set(&self.spawned);
        ExecStep::Ran { spawned, finished }
    }
}

/// A window spawns at most once per execution: a window whose flag is set never fires again,
/// and a window that fires has its flag set by that same step.
pub proof fn lemma_exec_fires_once(flag: bool, w: CollisionWindow, d: PhaseDurations, t: Micros)
    ensures
        flag ==> !exec_fires(flag, w, d, t),
        exec_fires(flag, w, d, t) ==> next_flag(flag, w, d, t),
        flag ==> next_flag(flag, w, d, t),
{
}

/// Once the clock has passed every scheduled window's start time, every window's flag is set.
pub proof fn lemma_exec_completes(ws: Seq<CollisionWindow>, flags: Seq<bool>, d: PhaseDurations, t: Micros)
    requires
        forall|i: int| 0 <= i < ws.len() && !((#[trigger] ws[i]).spawn is Template) ==> exec_due(ws[i], d, t),
    ensures
        forall|i: int| 0 <= i < ws.len() ==> next_flag(flag_before(flags, i), #[trigger] ws[i], d, t),
{
}

/// When a triggered execution's window comes due, timed by the authored phase durations exactly
/// as a cast times it: a `Windup` window at its offset, an `Active` window at the windup plus
/// its offset, a `Recovery` window at the windup plus the active time plus its offset. A
/// `Template` window is never due. (Durations are non-negative and the times fit in an `i64`.)
pub proof fn lemma_exec_window_due(w: CollisionWindow, d: PhaseDurations, t: Micros)
    requires
        0 <= d.windup,
        0 <= d.active,
        d.windup + d.active <= i64::MAX,
        w.spawn matches WindowSpawn::Scheduled { offset, .. } ==> d.windup + d.active + offset <= i64::MAX,
    ensures
        w.spawn is Template ==> !exec_due(w, d, t),
        w.spawn matches WindowSpawn::Scheduled { phase: WindowPhase::Windup, offset } ==> (exec_due(w, d, t) <==> t >= offset),
        w.spawn matches WindowSpawn::Scheduled { phase: WindowPhase::Active, offset } ==> (exec_due(w, d, t) <==> t >= d.windup + offset),
        w.spawn matches WindowSpawn::Scheduled { phase: WindowPhase::Recovery, offset } ==> (exec_due(w, d, t)
            <==> t >= d.windup + d.active + offset),
{
}

/// A step of a triggered execution spawns a window that had not spawned exactly when the window
/// is scheduled and its time has come by the step's end: at its offset into the windup, the
/// active phase (after the windup) or the recovery (after the windup and the active time).
pub proof fn lemma_exec_spawns_on_schedule(
    pre: TriggeredExec,
    post: TriggeredExec,
    dt: Micros,
    tl: CastTimeline,
    spawned: Seq<usize>,
    finished: bool,
    i: int,
)
    requires
        exec_step_spec(pre, post, dt, tl, spawned, finished),
        0 <= i < tl.collision_windows@.len(),
        !flag_before(pre.spawned@, i),
        0 <= tl.phase_durations.windup,
        0 <= tl.phase_durations.active,
        tl.phase_durations.windup + tl.phase_durations.active <= i64::MAX,
        tl.collision_windows@[i].spawn matches WindowSpawn::Scheduled { offset, .. }
            ==> tl.phase_durations.windup + tl.phase_durations.active + offset <= i64::MAX,
    ensures
        ({
            let d = tl.phase_durations;
            let t = post.elapsed;
            (exists|a: int| 0 <= a < spawned.len() && spawned[a] == i) <==> match tl.collision_windows@[i].spawn {
                WindowSpawn::Template => false,
                WindowSpawn::Scheduled { phase, offset } => t >= offset + match phase {
                    WindowPhase::Windup => 0int,
                    WindowPhase::Active => d.windup as int,
                    WindowPhase::Recovery => d.windup + d.active,
                },
            }
        }),
{
    let ws = tl.collision_windows@;
    let d = tl.phase_durations;
    lemma_exec_window_due(ws[i], d, post.elapsed);
    if exists|a: int| 0 <= a < spawned.len() && spawned[a] == i {
        let a = choose|a: int| 0 <= a < spawned.len() && spawned[a] == i;
        assert(exec_fires(flag_before(pre.spawned@, spawned[a] as int), ws[spawned[a] as int], d, post.elapsed));
    }
}

} // verus!
