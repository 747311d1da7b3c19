use obelisk_bevy::assets::{CollisionWindow, HitFilter, HitMode, MotionDirection, WindowAnchor, WindowPhase, WindowSpawn};
use obelisk_bevy::combatant::components::Faction;
use obelisk_bevy::events::EndReason;
use obelisk_bevy::spatial::boxes::{ChainPayload, Hitbox};
use obelisk_bevy::spatial::filter::passes_filter;

#[test]
fn enemies_hits_other_faction_only() {
    assert!(passes_filter(HitFilter::Enemies, Faction::Player, Faction::Enemy, false));
    assert!(!passes_filter(HitFilter::Enemies, Faction::Player, Faction::Player, false));
    assert!(!passes_filter(HitFilter::Enemies, Faction::Player, Faction::Enemy, true));
}

#[test]
fn allies_hits_same_faction_only() {
    assert!(passes_filter(HitFilter::Allies, Faction::Player, Faction::Player, false));
    assert!(!passes_filter(HitFilter::Allies, Faction::Player, Faction::Enemy, false));
}

#[test]
fn all_hits_anyone_but_self() {
    assert!(passes_filter(HitFilter::All, Faction::Player, Faction::Enemy, false));
    assert!(passes_filter(HitFilter::All, Faction::Player, Faction::Player, false));
    assert!(!passes_filter(HitFilter::All, Faction::Player, Faction::Player, true));
}

#[test]
fn caster_hits_only_self() {
    assert!(passes_filter(HitFilter::Caster, Faction::Player, Faction::Player, true));
    assert!(!passes_filter(HitFilter::Caster, Faction::Player, Faction::Enemy, false));
}

fn window(mode: HitMode, rehit: Option<i64>, beam: bool) -> CollisionWindow {
    CollisionWindow {
        id: "w".into(),
        spawn: WindowSpawn::Scheduled { phase: WindowPhase::Active, offset: 0 },
        anchor: WindowAnchor::Caster,
        strikes: true,
        active_duration: 1_000_000,
        motion_direction: MotionDirection::Inherit,
        hit_filter: HitFilter::Enemies,
        hit_mode: mode,
        rehit_interval: rehit,
        emitter: None,
        is_beam: beam,
    }
}

fn payload(target: Option<u64>) -> ChainPayload {
    ChainPayload { beam_target: target, hop: 0, visited: vec![], depth: 0 }
}

#[test]
fn once_per_target_strikes_each_target_once() {
    let mut hb = Hitbox::from_window(&window(HitMode::OncePerTarget, None, false), 1, "cleave", None, payload(None), false);
    assert!(hb.try_strike(2, Faction::Player, Faction::Enemy));
    assert!(!hb.try_strike(2, Faction::Player, Faction::Enemy), "no second strike on the same target");
    assert!(hb.try_strike(3, Faction::Player, Faction::Enemy), "other targets still struck");
    assert!(!hb.try_strike(4, Faction::Player, Faction::Player), "filter excludes allies");
    assert!(!hb.done);
}

#[test]
fn rehit_interval_allows_a_second_strike_after_it_passes() {
    let mut hb = Hitbox::from_window(&window(HitMode::OncePerTarget, Some(300_000), false), 1, "aura", None, payload(None), false);
    assert!(hb.try_strike(2, Faction::Player, Faction::Enemy));
    assert_eq!(hb.end_step(200_000, false), None);
    assert!(!hb.try_strike(2, Faction::Player, Faction::Enemy), "interval not yet passed");
    assert_eq!(hb.end_step(100_000, false), None);
    assert!(hb.try_strike(2, Faction::Player, Faction::Enemy), "interval passed");
}

#[test]
fn first_only_is_spent_by_its_hit_and_then_ends() {
    let mut hb = Hitbox::from_window(&window(HitMode::FirstOnly, None, false), 1, "firebolt", None, payload(None), false);
    assert!(hb.try_strike(2, Faction::Player, Faction::Enemy));
    assert!(hb.done);
    assert!(!hb.try_strike(3, Faction::Player, Faction::Enemy));
    assert_eq!(hb.end_step(16_666, false), Some(EndReason::HitEntity));
}

#[test]
fn every_tick_strikes_again_and_again() {
    let mut hb = Hitbox::from_window(&window(HitMode::EveryTick, None, false), 1, "pummel", None, payload(None), false);
    for _ in 0..5 {
        assert!(hb.try_strike(2, Faction::Player, Faction::Enemy));
        assert_eq!(hb.end_step(16_666, false), None);
    }
}

#[test]
fn fuse_and_world_hits_end_hitboxes() {
    let mut hb = Hitbox::from_window(&window(HitMode::OncePerTarget, None, false), 1, "bolt", None, payload(None), false);
    assert_eq!(hb.end_step(400_000, false), None);
    assert_eq!(hb.end_step(100_000, true), Some(EndReason::HitWorld));
    let mut hb = Hitbox::from_window(&window(HitMode::OncePerTarget, None, false), 1, "bolt", None, payload(None), false);
    assert_eq!(hb.end_step(1_000_000, false), Some(EndReason::Fuse));
}

#[test]
fn carriers_and_beams_never_overlap_strike() {
    let mut w = window(HitMode::OncePerTarget, None, false);
    w.strikes = false;
    let mut carrier = Hitbox::from_window(&w, 1, "carrier", None, payload(None), false);
    assert!(!carrier.try_strike(2, Faction::Player, Faction::Enemy));
    let mut beam = Hitbox::from_window(&window(HitMode::FirstOnly, None, true), 1, "zap", None, payload(Some(2)), false);
    assert!(!beam.try_strike(2, Faction::Player, Faction::Enemy));
}

#[test]
fn beam_strikes_its_designated_target_once() {
    let mut beam = Hitbox::from_window(&window(HitMode::FirstOnly, None, true), 1, "zap", None, payload(Some(2)), false);
    assert_eq!(beam.beam_strike(false, Faction::Player, Faction::Enemy), None, "target gone");
    assert_eq!(beam.beam_strike(true, Faction::Player, Faction::Enemy), Some(2));
    assert_eq!(beam.beam_strike(true, Faction::Player, Faction::Enemy), None, "spent");
    let mut aimless = Hitbox::from_window(&window(HitMode::FirstOnly, None, true), 1, "zap", None, payload(None), false);
    assert_eq!(aimless.beam_strike(true, Faction::Player, Faction::Enemy), None);
}
