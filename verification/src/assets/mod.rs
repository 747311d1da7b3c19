//! The authored skill timeline, as the simulation reads it: the collision windows with their
//! spawn roles, anchors, emitters and hit rules, the aim-acquisition tree, and the cue slots.
//! Times are [`Micros`]; other real-valued scalars are [`Fixed`].
use crate::units::{Fixed, Micros};
use vstd::hash_map::StringHashMap;
use vstd::prelude::*;

pub mod describe;

verus! {

/// Which targets a hit volume may strike, relative to its caster.
#[derive(Clone, Copy, Debug, PartialEq, Eq, Structural)]
pub enum HitFilter {
    Caster,
    Allies,
    Enemies,
    All,
}

/// How often a hit volume may strike the same target.
#[derive(Clone, Copy, Debug, PartialEq, Eq, Structural)]
pub enum HitMode {
    OncePerTarget,
    FirstOnly,
    EveryTick,
}

/// The cast phases a scheduled window can be placed in.
#[derive(Clone, Copy, Debug, PartialEq, Eq, Structural)]
pub enum WindowPhase {
    Windup,
    Active,
    Recovery,
}

/// When (whether) a window enters the world on its own.
#[derive(Clone, Copy, Debug, PartialEq, Eq, Structural)]
pub enum WindowSpawn {
    /// On the phase schedule: eligible at `phase`'s start time plus `offset`.
    Scheduled { phase: WindowPhase, offset: Micros },
    /// Never self-schedules; exists only to be instantiated by an emitter.
    Template,
}

/// Where a window's origin resolves.
#[derive(Clone, Copy, Debug, PartialEq, Eq, Structural)]
pub enum WindowAnchor {
    /// The caster entity's position at the moment the window spawns.
    Caster,
    /// The position this cast/execution was invoked at.
    CastPoint,
}

impl Default for WindowAnchor {
    fn default() -> (r: Self)
        ensures
            r == WindowAnchor::Caster,
    {
        WindowAnchor::Caster
    }
}

/// Overrides a window's launch direction.
#[derive(Clone, Copy, Debug, PartialEq, Eq, Structural)]
pub enum MotionDirection {
    /// Keep the motion's normal direction.
    Inherit,
    /// Launch straight down, regardless of aim.
    Down,
}

impl Default for MotionDirection {
    fn default() -> (r: Self)
        ensures
            r == MotionDirection::Inherit,
    {
        MotionDirection::Inherit
    }
}

/// Authored phase durations, before any speed scaling.
#[derive(Clone, Copy, Debug)]
pub struct PhaseDurations {
    pub windup: Micros,
    pub active: Micros,
    pub recovery: Micros,
}

/// Rains one instance of a `Template` window from a live hitbox: `rate` spawns per second, each
/// jittered within an xz-disc of radius `jitter`, instantiating the window named `window`.
#[derive(Clone, Debug)]
pub struct Emitter {
    pub rate: Fixed,
    pub jitter: Fixed,
    pub window: String,
}

/// One authored collision window (the fields the simulation's rules read).
#[derive(Clone, Debug)]
pub struct CollisionWindow {
    pub id: String,
    pub spawn: WindowSpawn,
    pub anchor: WindowAnchor,
    /// `false` = a carrier volume that never produces a hit.
    pub strikes: bool,
    pub active_duration: Micros,
    pub motion_direction: MotionDirection,
    pub hit_filter: HitFilter,
    pub hit_mode: HitMode,
    pub rehit_interval: Option<Micros>,
    pub emitter: Option<Emitter>,
    /// The window's motion is an instantaneous beam to a designated target.
    pub is_beam: bool,
}

/// Authored aim-acquisition requirement.
#[derive(Debug)]
pub enum Acquisition {
    /// Any resolved aim is accepted; produces no cast point.
    Aim,
    /// Any resolved aim is accepted; the cast point is the caster's position.
    SelfPoint,
    /// Requires an entity aim within `range` passing `filter`; produces no cast point.
    HitscanEntity { range: Fixed, filter: HitFilter, fallback: AcqFallback },
    /// Requires a point aim within `range`; the cast point is that point.
    GroundPoint { range: Fixed, fallback: AcqFallback },
}

impl Default for Acquisition {
    fn default() -> (r: Self)
        ensures
            r is Aim,
    {
        Acquisition::Aim
    }
}

/// What to do when an acquisition branch's requirement isn't met.
#[derive(Debug)]
pub enum AcqFallback {
    /// A paid rejection.
    Fizzle,
    /// Re-check the same aim against another acquisition node.
    Then(Box<Acquisition>),
}

/// An authored skill timeline.
pub struct CastTimeline {
    pub skill_id: String,
    pub phase_durations: PhaseDurations,
    pub collision_windows: Vec<CollisionWindow>,
    pub acquisition: Acquisition,
    /// Cue slot (`on_cast`, `on_hit`, `on_window_<id>`, ...) to game-side cue id.
    pub vfx_cues: StringHashMap<String>,
}

impl CastTimeline {
    /// A timeline with no cue bindings.
    pub fn new(
        skill_id: String,
        phase_durations: PhaseDurations,
        collision_windows: Vec<CollisionWindow>,
        acquisition: Acquisition,
    ) -> (r: Self)
        ensures
            r.skill_id@ == skill_id@,
            r.phase_durations == phase_durations,
            r.collision_windows@ == collision_windows@,
            r.acquisition == acquisition,
            r.vfx_cues@ == Map::<Seq<char>, String>::empty(),
    {
        CastTimeline { skill_id, phase_durations, collision_windows, acquisition, vfx_cues: StringHashMap::new() }
    }

    /// Bind cue slot `slot` to game-side cue `cue`.
    pub fn add_cue(&mut self, slot: String, cue: String)
        ensures
            final(self).vfx_cues@ == old(self).vfx_cues@.insert(slot@, cue),
            final(self).skill_id == old(self).skill_id,
            final(self).phase_durations == old(self).phase_durations,
            final(self).collision_windows == old(self).collision_windows,
            final(self).acquisition == old(self).acquisition,
    {
        self.vfx_cues.insert(slot, cue);
    }
}

/// A deep copy of an acquisition tree.
pub fn copy_acquisition(a: &Acquisition) -> (r: Acquisition)
    ensures
        r == *a,
    decreases a,
{
    match a {
        Acquisition::Aim => Acquisition::Aim,
        Acquisition::SelfPoint => Acquisition::SelfPoint,
        Acquisition::HitscanEntity { range, filter, fallback } => Acquisition::HitscanEntity {
            range: *range,
            filter: *filter,
            fallback: copy_fallback(fallback),
        },
        Acquisition::GroundPoint { range, fallback } => Acquisition::GroundPoint { range: *range, fallback: copy_fallback(fallback) },
    }
}

/// A deep copy of a fallback chain.
pub fn copy_fallback(f: &AcqFallback) -> (r: AcqFallback)
    ensures
        r == *f,
    decreases f,
{
    match f {
        AcqFallback::Fizzle => AcqFallback::Fizzle,
        AcqFallback::Then(next) => AcqFallback::Then(Box::new(copy_acquisition(next))),
    }
}

/// Whether `acq` (walking its fallback chain) can ever resolve to a cast point.
pub open spec fn can_produce_point(acq: Acquisition) -> bool
    decreases acq,
{
    match acq {
        Acquisition::Aim => false,
        Acquisition::SelfPoint => true,
        Acquisition::GroundPoint { .. } => true,
        Acquisition::HitscanEntity { fallback, .. } => fallback_can_produce_point(fallback),
    }
}

/// Whether a fallback chain can ever resolve to a cast point.
pub open spec fn fallback_can_produce_point(fb: AcqFallback) -> bool
    decreases fb,
{
    match fb {
        AcqFallback::Fizzle => false,
        AcqFallback::Then(next) => can_produce_point(*next),
    }
}

/// Whether `acq` (walking its fallback chain, if any) can ever resolve to a cast point.
pub fn acquisition_can_produce_point(acq: &Acquisition) -> (r: bool)
    ensures
        r == can_produce_point(*acq),
    decreases acq,
{
    match acq {
        Acquisition::Aim => false,
        Acquisition::SelfPoint => true,
        Acquisition::GroundPoint { .. } => true,
        Acquisition::HitscanEntity { fallback, .. } => fallback_can_produce_point_exec(fallback),
    }
}

fn fallback_can_produce_point_exec(fb: &AcqFallback) -> (r: bool)
    ensures
        r == fallback_can_produce_point(*fb),
    decreases fb,
{
    match fb {
        AcqFallback::Fizzle => false,
        AcqFallback::Then(next) => acquisition_can_produce_point(next),
    }
}

/// Why a timeline was rejected at load.
#[derive(Debug)]
pub enum TimelineError {
    /// A `Template` window carries an emitter of its own.
    TemplateCarriesEmitter { window: String },
    /// An emitter's rate is not strictly positive.
    NonPositiveRate { window: String, rate: Fixed },
    /// An emitter's jitter radius is negative.
    NegativeJitter { window: String, jitter: Fixed },
    /// An emitter names a window the timeline does not have.
    UnknownEmitterTarget { window: String, target: String },
    /// An emitter names a window that is not a `Template`.
    EmitterTargetNotTemplate { window: String, target: String, spawn: WindowSpawn },
    /// A `Template` window no emitter references (it could never spawn).
    UnreferencedTemplate { window: String },
    /// A `CastPoint`-anchored window under an acquisition that never produces a cast point.
    UnreachableCastPoint { window: String, acquisition: Acquisition },
}

/// [`TimelineError`] with its strings as character sequences.
pub enum TimelineErrorView {
    TemplateCarriesEmitter { window: Seq<char> },
    NonPositiveRate { window: Seq<char>, rate: Fixed },
    NegativeJitter { window: Seq<char>, jitter: Fixed },
    UnknownEmitterTarget { window: Seq<char>, target: Seq<char> },
    EmitterTargetNotTemplate { window: Seq<char>, target: Seq<char>, spawn: WindowSpawn },
    UnreferencedTemplate { window: Seq<char> },
    UnreachableCastPoint { window: Seq<char>, acquisition: Acquisition },
}

impl View for TimelineError {
    type V = TimelineErrorView;

    open spec fn view(&self) -> TimelineErrorView {
        match self {
            TimelineError::TemplateCarriesEmitter { window } => TimelineErrorView::TemplateCarriesEmitter { window: window@ },
            TimelineError::NonPositiveRate { window, rate } => TimelineErrorView::NonPositiveRate { window: window@, rate: *rate },
            TimelineError::NegativeJitter { window, jitter } => TimelineErrorView::NegativeJitter { window: window@, jitter: *jitter },
            TimelineError::UnknownEmitterTarget { window, target } => TimelineErrorView::UnknownEmitterTarget { window: window@, target: target@ },
            TimelineError::EmitterTargetNotTemplate { window, target, spawn } => TimelineErrorView::EmitterTargetNotTemplate { window: window@, target: target@, spawn: *spawn },
            TimelineError::UnreferencedTemplate { window } => TimelineErrorView::UnreferencedTemplate { window: window@ },
            TimelineError::UnreachableCastPoint { window, acquisition } => TimelineErrorView::UnreachableCastPoint { window: window@, acquisition: *acquisition },
        }
    }
}

/// The index of the first window of `ws`, at or after `i`, whose id is `id`.
pub open spec fn find_window_from(ws: Seq<CollisionWindow>, id: Seq<char>, i: int) -> Option<int>
    decreases ws.len() - i,
{
    if i < 0 || i >= ws.len() {
        None
    } else if ws[i].id@ == id {
        Some(i)
    } else {
        find_window_from(ws, id, i + 1)
    }
}

/// Some window of `ws` carries an emitter naming `id`.
pub open spec fn referenced_by_emitter(ws: Seq<CollisionWindow>, id: Seq<char>) -> bool {
    exists|k: int| 0 <= k < ws.len() && (#[trigger] ws[k]).emitter is Some && ws[k].emitter->0.window@ == id
}

/// What is wrong with window `j`'s emitter, if anything.
pub open spec fn emitter_error(ws: Seq<CollisionWindow>, j: int) -> Option<TimelineErrorView> {
    let w = ws[j];
    match w.emitter {
        None => None,
        Some(em) => {
            if w.spawn is Template {
                Some(TimelineErrorView::TemplateCarriesEmitter { window: w.id@ })
            } else if em.rate <= 0 {
                Some(TimelineErrorView::NonPositiveRate { window: w.id@, rate: em.rate })
            } else if em.jitter < 0 {
                Some(TimelineErrorView::NegativeJitter { window: w.id@, jitter: em.jitter })
            } else {
                match find_window_from(ws, em.window@, 0) {
                    None => Some(TimelineErrorView::UnknownEmitterTarget { window: w.id@, target: em.window@ }),
                    Some(k) => if ws[k].spawn is Template {
                        None
                    } else {
                        Some(TimelineErrorView::EmitterTargetNotTemplate { window: w.id@, target: em.window@, spawn: ws[k].spawn })
                    },
                }
            }
        },
    }
}

/// What is wrong with window `j`'s role or anchor, if anything.
pub open spec fn window_error(ws: Seq<CollisionWindow>, acq: Acquisition, j: int) -> Option<TimelineErrorView> {
    let w = ws[j];
    if w.spawn is Template && !referenced_by_emitter(ws, w.id@) {
        Some(TimelineErrorView::UnreferencedTemplate { window: w.id@ })
    } else if w.anchor is CastPoint && !can_produce_point(acq) {
        Some(TimelineErrorView::UnreachableCastPoint { window: w.id@, acquisition: acq })
    } else {
        None
    }
}

/// The first emitter error among windows `i..`.
pub open spec fn first_emitter_error(ws: Seq<CollisionWindow>, i: int) -> Option<TimelineErrorView>
    decreases ws.len() - i,
{
    if i < 0 || i >= ws.len() {
        None
    } else {
        match emitter_error(ws, i) {
            Some(e) => Some(e),
            None => first_emitter_error(ws, i + 1),
        }
    }
}

/// The first role/anchor error among windows `i..`.
pub open spec fn first_window_error(ws: Seq<CollisionWindow>, acq: Acquisition, i: int) -> Option<TimelineErrorView>
    decreases ws.len() - i,
{
    if i < 0 || i >= ws.len() {
        None
    } else {
        match window_error(ws, acq, i) {
            Some(e) => Some(e),
            None => first_window_error(ws, acq, i + 1),
        }
    }
}

/// The error a timeline is rejected with: the first emitter error in window order, else the
/// first role/anchor error in window order; `None` for a valid timeline.
pub open spec fn timeline_error(ws: Seq<CollisionWindow>, acq: Acquisition) -> Option<TimelineErrorView> {
    match first_emitter_error(ws, 0) {
        Some(e) => Some(e),
        None => first_window_error(ws, acq, 0),
    }
}

fn find_window(ws: &Vec<CollisionWindow>, id: &String) -> (r: Option<usize>)
    ensures
        match r {
            Some(k) => k < ws@.len() && find_window_from(ws@, id@, 0) == Some(k as int),
            None => find_window_from(ws@, id@, 0) is None,
        },
{
    let mut i: usize = 0;
    while i < ws.len()
        invariant
            i <= ws.len(),
            find_window_from(ws@, id@, 0) == find_window_from(ws@, id@, i as int),
        decreases ws.len() - i,
    {
        if ws[i].id == *id {
            return Some(i);
        }
        i += 1;
    }
    None
}

fn is_referenced(ws: &Vec<CollisionWindow>, id: &String) -> (r: bool)
    ensures
        r == referenced_by_emitter(ws@, id@),
{
    let mut i: usize = 0;
    while i < ws.len()
        invariant
            i <= ws.len(),
            forall|k: int| 0 <= k < i ==> !((#[trigger] ws@[k]).emitter is Some && ws@[k].emitter->0.window@ == id@),
        decreases ws.len() - i,
    {
        match &ws[i].emitter {
            Some(em) => {
                if em.window == *id {
                    return true;
                }
            },
            None => {},
        }
        i += 1;
    }
    false
}

fn check_emitter(ws: &Vec<CollisionWindow>, j: usize) -> (r: Result<(), TimelineError>)
    requires
        j < ws.len(),
    ensures
        match r {
            Ok(_) => emitter_error(ws@, j as int) is None,
            Err(e) => emitter_error(ws@, j as int) == Some(e@),
        },
{
    let w = &ws[j];
    match &w.emitter {
        None => Ok(()),
        Some(em) => {
            if w.spawn == WindowSpawn::Template {
                return Err(TimelineError::TemplateCarriesEmitter { window: w.id.clone() });
            }
            if em.rate <= 0 {
                return Err(TimelineError::NonPositiveRate { window: w.id.clone(), rate: em.rate });
            }
            if em.jitter < 0 {
                return Err(TimelineError::NegativeJitter { window: w.id.clone(), jitter: em.jitter });
            }
            match find_window(ws, &em.window) {
                None => Err(TimelineError::UnknownEmitterTarget { window: w.id.clone(), target: em.window.clone() }),
                Some(k) => {
                    if ws[k].spawn != WindowSpawn::Template {
                        Err(TimelineError::EmitterTargetNotTemplate {
                            window: w.id.clone(),
                            target: em.window.clone(),
                            spawn: ws[k].spawn,
                        })
                    } else {
                        Ok(())
                    }
                },
            }
        },
    }
}

/// Timeline validation: every emitter sits on a scheduled window, has a positive rate and a
/// non-negative jitter, and names an existing `Template` window; every `Template` window is
/// named by some emitter; and a `CastPoint`-anchored window only appears under an acquisition
/// that can produce a cast point. Reports the first violation (emitters first, in window order).
pub fn validate_timeline(tl: &CastTimeline) -> (r: Result<(), TimelineError>)
    ensures
        match r {
            Ok(_) => timeline_error(tl.collision_windows@, tl.acquisition) is None,
            Err(e) => timeline_error(tl.collision_windows@, tl.acquisition) == Some(e@),
        },
{
    let ws = &tl.collision_windows;
    let ghost wsv = ws@;
    let mut i: usize = 0;
    while i < ws.len()
        invariant
            i <= ws.len(),
            wsv == ws@,
            wsv == tl.collision_windows@,
            first_emitter_error(wsv, 0) == first_emitter_error(wsv, i as int),
        decreases ws.len() - i,
    {
        let c = check_emitter(ws, i);
        match c {
            Err(e) => {
                proof {
                    assert(first_emitter_error(wsv, i as int) == Some(e@));
                }
                return Err(e);
            },
            Ok(_) => {},
        }
        i += 1;
    }
    let point_ok = acquisition_can_produce_point(&tl.acquisition);
    let mut j: usize = 0;
    while j < ws.len()
        invariant
            j <= ws.len(),
            wsv == ws@,
            wsv == tl.collision_windows@,
            first_emitter_error(wsv, 0) is None,
            point_ok == can_produce_point(tl.acquisition),
            first_window_error(wsv, tl.acquisition, 0) == first_window_error(wsv, tl.acquisition, j as int),
        decreases ws.len() - j,
    {
        let w = &ws[j];
        if w.spawn == WindowSpawn::Template && !is_referenced(ws, &w.id) {
            let e = TimelineError::UnreferencedTemplate { window: w.id.clone() };
            proof {
                assert(window_error(wsv, tl.acquisition, j as int) == Some(e@));
                assert(first_window_error(wsv, tl.acquisition, j as int) == Some(e@));
            }
            return Err(e);
        }
        if w.anchor == WindowAnchor::CastPoint && !point_ok {
            let e = TimelineError::UnreachableCastPoint { window: w.id.clone(), acquisition: copy_acquisition(&tl.acquisition) };
            proof {
                assert(window_error(wsv, tl.acquisition, j as int) == Some(e@));
                assert(first_window_error(wsv, tl.acquisition, j as int) == Some(e@));
            }
            return Err(e);
        }
        proof {
            assert(window_error(wsv, tl.acquisition, j as int) is None);
        }
        j += 1;
    }
    Ok(())
}

} // verus!
