use obelisk_bevy::assets::describe::{acquisition_string, spawn_string};
use obelisk_bevy::assets::{
    acquisition_can_produce_point, validate_timeline, AcqFallback, Acquisition, CastTimeline,
    CollisionWindow, Emitter, HitFilter, HitMode, MotionDirection, PhaseDurations, TimelineError,
    WindowAnchor, WindowPhase, WindowSpawn,
};

fn basic_window(id: &str) -> CollisionWindow {
    CollisionWindow {
        id: id.into(),
        spawn: WindowSpawn::Scheduled { phase: WindowPhase::Active, offset: 0 },
        anchor: WindowAnchor::Caster,
        strikes: true,
        active_duration: 1_000_000,
        motion_direction: MotionDirection::Inherit,
        hit_filter: HitFilter::Enemies,
        hit_mode: HitMode::OncePerTarget,
        rehit_interval: None,
        emitter: None,
        is_beam: false,
    }
}

fn timeline_with_windows(wins: Vec<CollisionWindow>) -> CastTimeline {
    CastTimeline::new(
        "test".into(),
        PhaseDurations { windup: 100_000, active: 100_000, recovery: 100_000 },
        wins,
        Acquisition::default(),
    )
}

fn timeline_with(win: CollisionWindow) -> CastTimeline {
    timeline_with_windows(vec![win])
}

fn template_window(id: &str) -> CollisionWindow {
    CollisionWindow { spawn: WindowSpawn::Template, ..basic_window(id) }
}

fn emitting_window(id: &str, target: &str) -> CollisionWindow {
    CollisionWindow {
        emitter: Some(Emitter { rate: 2_000_000, jitter: 1_000_000, window: target.into() }),
        ..basic_window(id)
    }
}

fn cast_point_window(id: &str) -> CollisionWindow {
    CollisionWindow { anchor: WindowAnchor::CastPoint, ..basic_window(id) }
}

fn error_message(tl: &CastTimeline) -> String {
    match validate_timeline(tl) {
        Ok(()) => panic!("expected a validation error"),
        Err(e) => e.message(),
    }
}

#[test]
fn scheduled_windows_validate() {
    assert!(validate_timeline(&timeline_with(basic_window("w"))).is_ok());
}

#[test]
fn template_window_referenced_by_emitter_validates() {
    let tl = timeline_with_windows(vec![emitting_window("storm", "shard"), template_window("shard")]);
    assert!(validate_timeline(&tl).is_ok());
}

#[test]
fn emitter_targeting_unknown_window_fails_validation() {
    let tl = timeline_with_windows(vec![emitting_window("storm", "ghost")]);
    let err = error_message(&tl);
    assert!(err.contains("storm") && err.contains("ghost") && err.contains("unknown"), "{err}");
}

#[test]
fn emitter_targeting_non_template_window_fails_validation() {
    let tl = timeline_with_windows(vec![emitting_window("storm", "other"), basic_window("other")]);
    let err = error_message(&tl);
    assert!(err.contains("storm") && err.contains("other") && err.contains("not a Template"), "{err}");
}

#[test]
fn unreferenced_template_window_fails_validation() {
    let tl = timeline_with_windows(vec![template_window("shard")]);
    let err = error_message(&tl);
    assert!(err.contains("shard") && err.contains("Template") && err.contains("never referenced"), "{err}");
}

#[test]
fn template_window_with_its_own_emitter_fails_validation() {
    let mut tpl = emitting_window("shard", "shard");
    tpl.spawn = WindowSpawn::Template;
    let tl = timeline_with_windows(vec![tpl]);
    let err = error_message(&tl);
    assert!(err.contains("shard") && err.contains("recursion"), "{err}");
}

#[test]
fn emitter_rate_must_be_positive_fails_validation() {
    let mut storm = emitting_window("storm", "shard");
    storm.emitter.as_mut().unwrap().rate = 0;
    let tl = timeline_with_windows(vec![storm, template_window("shard")]);
    let err = error_message(&tl);
    assert!(err.contains("storm") && err.contains("rate"), "{err}");
}

#[test]
fn emitter_jitter_must_be_non_negative_fails_validation() {
    let mut storm = emitting_window("storm", "shard");
    storm.emitter.as_mut().unwrap().jitter = -1_000_000;
    let tl = timeline_with_windows(vec![storm, template_window("shard")]);
    let err = error_message(&tl);
    assert!(err.contains("storm") && err.contains("jitter"), "{err}");
}

#[test]
fn cast_point_window_with_ground_point_acquisition_validates() {
    let mut tl = timeline_with(cast_point_window("storm"));
    tl.acquisition = Acquisition::GroundPoint { range: 30_000_000, fallback: AcqFallback::Fizzle };
    assert!(validate_timeline(&tl).is_ok());
}

#[test]
fn cast_point_window_reachable_via_fallback_chain_validates() {
    let mut tl = timeline_with(cast_point_window("storm"));
    tl.acquisition = Acquisition::HitscanEntity {
        range: 15_000_000,
        filter: HitFilter::Enemies,
        fallback: AcqFallback::Then(Box::new(Acquisition::SelfPoint)),
    };
    assert!(validate_timeline(&tl).is_ok());
}

#[test]
fn self_point_acquisition_validates() {
    let mut tl = timeline_with(cast_point_window("storm"));
    tl.acquisition = Acquisition::SelfPoint;
    assert!(validate_timeline(&tl).is_ok());
}

#[test]
fn cast_point_window_under_plain_aim_is_unreachable() {
    let tl = timeline_with(cast_point_window("storm"));
    let err = error_message(&tl);
    assert_eq!(
        err,
        "window 'storm' anchors on CastPoint, but this timeline's acquisition (Aim) can never produce a cast point — add a GroundPoint/SelfPoint branch (directly or via a fallback chain) or change the window's anchor to Caster"
    );
}

#[test]
fn hitscan_ending_in_fizzle_cannot_produce_a_point() {
    let acq = Acquisition::HitscanEntity {
        range: 15_000_000,
        filter: HitFilter::Enemies,
        fallback: AcqFallback::Fizzle,
    };
    assert!(!acquisition_can_produce_point(&acq));
    assert!(acquisition_can_produce_point(&Acquisition::SelfPoint));
    assert!(!acquisition_can_produce_point(&Acquisition::Aim));
}

#[test]
fn error_messages_read_exactly() {
    let tl = timeline_with_windows(vec![emitting_window("storm", "ghost")]);
    assert_eq!(error_message(&tl), "window 'storm' emitter targets unknown window 'ghost'");
    let tl = timeline_with_windows(vec![template_window("shard")]);
    assert_eq!(
        error_message(&tl),
        "window 'shard' is a Template but is never referenced by an emitter — it can never spawn"
    );
    let mut tpl = emitting_window("shard", "shard");
    tpl.spawn = WindowSpawn::Template;
    assert_eq!(
        error_message(&timeline_with_windows(vec![tpl])),
        "window 'shard' is a Template and may not itself carry an emitter (Template->Template recursion guard)"
    );
}

#[test]
fn non_template_target_message_names_its_spawn() {
    let tl = timeline_with_windows(vec![emitting_window("storm", "other"), basic_window("other")]);
    assert_eq!(
        error_message(&tl),
        "window 'storm' emitter targets window 'other', which is not a Template (spawn: Scheduled { phase: Active, offset: 0.0 }) — an emitter may only instantiate a Template window"
    );
}

#[test]
fn first_failing_window_decides() {
    // The recursion guard on the first window is reported before the second window's problem.
    let mut tpl = emitting_window("a", "a");
    tpl.spawn = WindowSpawn::Template;
    let tl = timeline_with_windows(vec![tpl, emitting_window("b", "ghost")]);
    match validate_timeline(&tl) {
        Err(TimelineError::TemplateCarriesEmitter { window }) => assert_eq!(window, "a"),
        _ => panic!("expected the recursion guard"),
    }
}

#[test]
fn spawn_and_acquisition_text() {
    assert_eq!(spawn_string(WindowSpawn::Template), "Template");
    assert_eq!(
        spawn_string(WindowSpawn::Scheduled { phase: WindowPhase::Windup, offset: 250_000 }),
        "Scheduled { phase: Windup, offset: 0.25 }"
    );
    let acq = Acquisition::HitscanEntity {
        range: 15_000_000,
        filter: HitFilter::Enemies,
        fallback: AcqFallback::Then(Box::new(Acquisition::SelfPoint)),
    };
    assert_eq!(
        acquisition_string(&acq),
        "HitscanEntity { range: 15.0, filter: Enemies, fallback: Then(SelfPoint) }"
    );
}
