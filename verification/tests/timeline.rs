use obelisk_bevy::assets::{
    Acquisition, CastTimeline, CollisionWindow, HitFilter, HitMode, MotionDirection, PhaseDurations,
    WindowAnchor, WindowPhase, WindowSpawn,
};
use obelisk_bevy::combat::system::{
    is_free_hit, is_invalid_timeline_target, next_depth, partition_conditions, resolve_plan,
    triggers_to_resolve, MAX_TRIGGER_RESOLUTIONS,
};
use obelisk_bevy::assets::AcqFallback;
use obelisk_bevy::combatant::components::Faction;
use obelisk_bevy::combatant::cooldown::Cooldowns;
use obelisk_bevy::timeline::acquire::{acquire, AimFacts, AimKind, CastPoint};
use obelisk_bevy::events::{CastRejectReason, CueKind};
use obelisk_bevy::timeline::emit::EmitterClock;
use obelisk_bevy::timeline::advance::{begin_cast, validate_cast, CastChecks, CastVerdict};
use obelisk_bevy::timeline::state::{window_start_time, ActiveCast, SkillPhase};
use obelisk_bevy::timeline::triggered::{execute_skill_timeline, ExecStep, MAX_TRIGGER_DEPTH};
use obelisk_bevy::vfx::{cast_slot, cue_for, end_slot, hit_slot, window_slot};

fn window(id: &str, spawn: WindowSpawn) -> CollisionWindow {
    CollisionWindow {
        id: id.into(),
        spawn,
        anchor: WindowAnchor::Caster,
        strikes: true,
        active_duration: 500_000,
        motion_direction: MotionDirection::Inherit,
        hit_filter: HitFilter::Enemies,
        hit_mode: HitMode::FirstOnly,
        rehit_interval: None,
        emitter: None,
        is_beam: false,
    }
}

fn at(phase: WindowPhase, offset: i64) -> WindowSpawn {
    WindowSpawn::Scheduled { phase, offset }
}

#[test]
fn phases_follow_the_durations() {
    let cast = ActiveCast::begin("firebolt".into(), None, 300_000, 200_000, 100_000, None);
    assert_eq!(cast.total_duration(), 600_000);
    assert_eq!(cast.phase_at(0), SkillPhase::Windup);
    assert_eq!(cast.phase_at(299_999), SkillPhase::Windup);
    assert_eq!(cast.phase_at(300_000), SkillPhase::Active);
    assert_eq!(cast.phase_at(500_000), SkillPhase::Recovery);
    assert_eq!(cast.phase_at(600_000), SkillPhase::Done);
}

#[test]
fn advancing_a_cast_opens_windows_once_and_finishes() {
    let ws = vec![
        window("bolt", at(WindowPhase::Active, 0)),
        window("late", at(WindowPhase::Active, 100_000)),
        window("tpl", WindowSpawn::Template),
    ];
    let mut cast = ActiveCast::begin("firebolt".into(), Some(9), 300_000, 200_000, 100_000, Some(3));
    let s = cast.advance(200_000, Some(&ws));
    assert!(s.phase_change.is_none());
    assert!(s.spawned.is_empty());
    let s = cast.advance(100_000, Some(&ws));
    assert_eq!(s.phase_change, Some((SkillPhase::Windup, SkillPhase::Active)));
    assert_eq!(s.spawned, vec![0]);
    assert!(!s.finished);
    let s = cast.advance(150_000, Some(&ws));
    assert_eq!(s.spawned, vec![1]);
    let s = cast.advance(200_000, Some(&ws));
    assert_eq!(s.phase_change, Some((SkillPhase::Active, SkillPhase::Done)));
    assert!(s.spawned.is_empty());
    assert!(s.finished);
    assert_eq!(cast.fired_windows, vec!["bolt".to_string(), "late".to_string()]);
}

#[test]
fn window_start_times() {
    assert_eq!(window_start_time(300_000, 200_000, at(WindowPhase::Windup, 50_000)), Some(50_000));
    assert_eq!(window_start_time(300_000, 200_000, at(WindowPhase::Active, 50_000)), Some(350_000));
    assert_eq!(window_start_time(300_000, 200_000, at(WindowPhase::Recovery, 0)), Some(500_000));
    assert_eq!(window_start_time(300_000, 200_000, WindowSpawn::Template), None);
}

fn all_pass() -> CastChecks {
    CastChecks {
        already_casting: false,
        skill_known: true,
        timeline_loaded: true,
        has_attributes: true,
        can_afford: true,
        cooldown_ready: true,
        target_found: true,
        in_range: true,
        line_of_sight: true,
    }
}

#[test]
fn cast_admission_checks_in_order() {
    assert_eq!(validate_cast(&all_pass()), CastVerdict::Begin);
    let c = CastChecks { already_casting: true, skill_known: false, ..all_pass() };
    assert_eq!(validate_cast(&c), CastVerdict::Reject(CastRejectReason::AlreadyCasting));
    let c = CastChecks { skill_known: false, ..all_pass() };
    assert_eq!(validate_cast(&c), CastVerdict::Reject(CastRejectReason::UnknownSkill));
    let c = CastChecks { timeline_loaded: false, ..all_pass() };
    assert_eq!(validate_cast(&c), CastVerdict::Reject(CastRejectReason::TimelineMissing));
    let c = CastChecks { has_attributes: false, can_afford: false, ..all_pass() };
    assert_eq!(validate_cast(&c), CastVerdict::Skip);
    let c = CastChecks { can_afford: false, ..all_pass() };
    assert_eq!(validate_cast(&c), CastVerdict::Reject(CastRejectReason::InsufficientMana));
    let c = CastChecks { cooldown_ready: false, ..all_pass() };
    assert_eq!(validate_cast(&c), CastVerdict::Reject(CastRejectReason::OnCooldown));
    let c = CastChecks { target_found: false, ..all_pass() };
    assert_eq!(validate_cast(&c), CastVerdict::Reject(CastRejectReason::NoTarget));
    let c = CastChecks { in_range: false, ..all_pass() };
    assert_eq!(validate_cast(&c), CastVerdict::Reject(CastRejectReason::OutOfRange));
    let c = CastChecks { line_of_sight: false, ..all_pass() };
    assert_eq!(validate_cast(&c), CastVerdict::Reject(CastRejectReason::NoLineOfSight));
}

#[test]
fn beginning_a_cast_starts_its_cooldown() {
    let mut cd = Cooldowns::new();
    let (cast, started) = begin_cast(&mut cd, 1, "firebolt", Some(2), 300_000, 200_000, 100_000, None, 1_500_000);
    assert!(started);
    assert_eq!(cast.phase, SkillPhase::Windup);
    assert_eq!(cd.remaining(1, "firebolt"), 1_500_000);
    let c = CastChecks { cooldown_ready: cd.is_ready(1, "firebolt"), ..all_pass() };
    assert_eq!(validate_cast(&c), CastVerdict::Reject(CastRejectReason::OnCooldown));
    let (_, started) = begin_cast(&mut cd, 1, "nova", None, 0, 0, 0, None, 0);
    assert!(!started);
    assert!(cd.is_ready(1, "nova"));
}

#[test]
fn trigger_depth_is_capped() {
    assert!(execute_skill_timeline(1, "boom", None, None, MAX_TRIGGER_DEPTH - 1).is_some());
    assert!(execute_skill_timeline(1, "boom", None, None, MAX_TRIGGER_DEPTH).is_none());
    assert_eq!(MAX_TRIGGER_DEPTH, 8);
}

#[test]
fn triggered_execution_spawns_on_its_own_clock() {
    let tl = CastTimeline::new(
        "boom".into(),
        PhaseDurations { windup: 100_000, active: 100_000, recovery: 0 },
        vec![
            window("blast", at(WindowPhase::Windup, 0)),
            window("after", at(WindowPhase::Active, 50_000)),
            window("tpl", WindowSpawn::Template),
        ],
        Acquisition::default(),
    );
    let mut ex = execute_skill_timeline(1, "boom", Some(4), None, 1).unwrap();
    assert!(matches!(ex.advance(16_000, false, Some(&tl)), ExecStep::Dropped));
    assert!(matches!(ex.advance(16_000, true, None), ExecStep::Waiting));
    match ex.advance(16_000, true, Some(&tl)) {
        ExecStep::Ran { spawned, finished } => {
            assert_eq!(spawned, vec![0]);
            assert!(!finished);
        },
        _ => panic!("expected a step"),
    }
    match ex.advance(150_000, true, Some(&tl)) {
        ExecStep::Ran { spawned, finished } => {
            assert_eq!(spawned, vec![1]);
            assert!(finished);
        },
        _ => panic!("expected a step"),
    }
}

#[test]
fn cue_slots_and_lookup() {
    assert_eq!(cast_slot(), "on_cast");
    assert_eq!(hit_slot(), "on_hit");
    assert_eq!(window_slot("bolt", false), ("on_window_bolt".to_string(), CueKind::OnWindow));
    assert_eq!(window_slot("shard", true), ("emit_shard".to_string(), CueKind::OnEmit));
    assert_eq!(end_slot("bolt"), "on_end_bolt");
    let mut tl = CastTimeline::new(
        "firebolt".into(),
        PhaseDurations { windup: 0, active: 0, recovery: 0 },
        vec![],
        Acquisition::default(),
    );
    tl.add_cue("on_cast".into(), "fire_charge".into());
    assert_eq!(cue_for(Some(&tl), "on_cast"), Some("fire_charge".to_string()));
    assert_eq!(cue_for(Some(&tl), "on_hit"), None);
    assert_eq!(cue_for(None, "on_cast"), None);
}

#[test]
fn billing_and_trigger_rules() {
    assert!(!is_free_hit(0, 0, false));
    assert!(is_free_hit(1, 0, false));
    assert!(is_free_hit(0, 2, false));
    assert!(is_free_hit(0, 0, true));
    assert!(is_invalid_timeline_target(true, false));
    assert!(!is_invalid_timeline_target(true, true));
    assert!(!is_invalid_timeline_target(false, false));
    let (tl, packet) = partition_conditions(&vec![false, true, false, true]);
    assert_eq!(tl, vec![1, 3]);
    assert_eq!(packet, vec![0, 2]);
    let plan = resolve_plan(0, 0, false, 0);
    assert!(!plan.zero_mana && !plan.strip_timeline_conditions);
    let plan = resolve_plan(1, 0, false, 2);
    assert!(plan.zero_mana && plan.strip_timeline_conditions);
    assert_eq!(triggers_to_resolve(3), 3);
    assert_eq!(triggers_to_resolve(20), MAX_TRIGGER_RESOLUTIONS);
    assert_eq!(next_depth(0), 1);
    assert_eq!(next_depth(255), 255);
}

fn aim(kind: AimKind, distance: i64, target_faction: Faction) -> AimFacts {
    AimFacts {
        kind,
        distance,
        caster_faction: Faction::Player,
        target_faction,
        target_is_caster: false,
    }
}

#[test]
fn acquisition_branches_and_fallbacks() {
    let enemy = aim(AimKind::Entity, 10_000_000, Faction::Enemy);
    assert_eq!(acquire(&Acquisition::Aim, &enemy), Ok(CastPoint::NoPoint));
    assert_eq!(acquire(&Acquisition::SelfPoint, &enemy), Ok(CastPoint::Caster));
    let hitscan = Acquisition::HitscanEntity {
        range: 15_000_000,
        filter: HitFilter::Enemies,
        fallback: AcqFallback::Fizzle,
    };
    assert_eq!(acquire(&hitscan, &enemy), Ok(CastPoint::NoPoint));
    assert_eq!(
        acquire(&hitscan, &aim(AimKind::Entity, 20_000_000, Faction::Enemy)),
        Err(CastRejectReason::OutOfRange)
    );
    assert_eq!(
        acquire(&hitscan, &aim(AimKind::Entity, 1_000_000, Faction::Player)),
        Err(CastRejectReason::NoTarget),
        "the filter refuses an ally"
    );
    assert_eq!(acquire(&hitscan, &aim(AimKind::Direction, 0, Faction::Player)), Err(CastRejectReason::NoTarget));
    let ground = Acquisition::GroundPoint {
        range: 30_000_000,
        fallback: AcqFallback::Then(Box::new(Acquisition::SelfPoint)),
    };
    assert_eq!(acquire(&ground, &aim(AimKind::Point, 12_000_000, Faction::Player)), Ok(CastPoint::Aimed));
    assert_eq!(
        acquire(&ground, &aim(AimKind::Point, 40_000_000, Faction::Player)),
        Ok(CastPoint::Caster),
        "out of range falls back to the caster"
    );
    let strict = Acquisition::GroundPoint { range: 30_000_000, fallback: AcqFallback::Fizzle };
    assert_eq!(acquire(&strict, &aim(AimKind::Point, 40_000_000, Faction::Player)), Err(CastRejectReason::OutOfRange));
    assert_eq!(acquire(&strict, &enemy), Err(CastRejectReason::NoTarget));
}

#[test]
fn emitter_clock_emits_once_per_period() {
    // 4 per second: one emission every 0.25 s.
    let mut clock = EmitterClock::default();
    assert_eq!(clock.tick(200_000, 4_000_000), 0);
    assert_eq!(clock.tick(100_000, 4_000_000), 1);
    assert_eq!(clock.since, 50_000);
    assert_eq!(clock.tick(700_000, 4_000_000), 3);
    assert_eq!(clock.since, 0);
}

#[test]
fn emitter_clock_catches_up_after_rate_change() {
    // 0.2 s carried at 2/s; at 10/s (period 0.1 s) that is two whole periods already due.
    let mut clock = EmitterClock { since: 200_000 };
    assert_eq!(clock.tick(50_000, 10_000_000), 2);
    assert_eq!(clock.since, 50_000);
}
