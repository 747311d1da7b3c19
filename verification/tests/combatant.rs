use obelisk_bevy::combatant::cooldown::Cooldowns;
use obelisk_bevy::combatant::rng::{seed_combat_rng, CombatRng, SpawnRng, SPAWN_RNG_SEED_XOR};
use obelisk_bevy::facade::read::can_cast;
use obelisk_bevy::events::CastRejectReason;
use obelisk_bevy::timeline::cast::{charge_mult, scale_durations};
use rand::Rng;
use rand::SeedableRng;
use rand_chacha::ChaCha8Rng;

#[test]
fn ready_when_absent_then_busy_after_start() {
    let e: u64 = 1;
    let mut cd = Cooldowns::default();
    assert!(cd.is_ready(e, "firebolt"), "absent = ready");
    cd.start(e, "firebolt", 2_000_000);
    assert!(!cd.is_ready(e, "firebolt"), "busy after start");
    assert_eq!(cd.remaining(e, "firebolt"), 2_000_000);
    cd.start(e, "other", 0);
    assert!(cd.is_ready(e, "other"), "zero-duration start is a no-op");
}

#[test]
fn cooldown_runs_down_and_reports_ready_once() {
    let mut cd = Cooldowns::new();
    cd.start(7, "firebolt", 1_000_000);
    cd.start(8, "nova", 3_000_000);
    let ready = cd.tick(600_000);
    assert!(ready.is_empty());
    assert_eq!(cd.remaining(7, "firebolt"), 400_000);
    let ready = cd.tick(400_000);
    assert_eq!(ready, vec![(7u64, "firebolt".to_string())]);
    assert!(cd.is_ready(7, "firebolt"));
    assert_eq!(cd.remaining(7, "firebolt"), 0);
    assert_eq!(cd.remaining(8, "nova"), 2_000_000);
    // A timer that has already reported is gone: it is never reported again.
    assert!(cd.tick(100_000).is_empty());
}

#[test]
fn restarting_a_cooldown_replaces_its_timer() {
    let mut cd = Cooldowns::new();
    cd.start(1, "a", 5_000_000);
    cd.start(1, "a", 1_000_000);
    assert_eq!(cd.remaining(1, "a"), 1_000_000);
    assert!(cd.is_ready(2, "a"), "timers are per entity");
}

#[test]
fn default_is_deterministic_seed_zero() {
    let mut a = SpawnRng::default();
    let mut b = SpawnRng::default();
    assert_eq!(a.0.gen::<u64>(), b.0.gen::<u64>());
}

#[test]
fn seeded_streams_follow_their_seeds() {
    let (mut combat, mut spawn) = seed_combat_rng(5);
    let mut expect_combat = ChaCha8Rng::seed_from_u64(5);
    let mut expect_spawn = ChaCha8Rng::seed_from_u64(5 ^ SPAWN_RNG_SEED_XOR);
    assert_eq!(combat.0.gen::<u64>(), expect_combat.gen::<u64>());
    assert_eq!(spawn.0.gen::<u64>(), expect_spawn.gen::<u64>());
    assert_eq!(SPAWN_RNG_SEED_XOR, 0x5EED_5EED);
    let mut zero = CombatRng::default();
    let mut expect_zero = ChaCha8Rng::seed_from_u64(0);
    assert_eq!(zero.0.gen::<u64>(), expect_zero.gen::<u64>());
}

#[test]
fn combat_and_spawn_streams_differ() {
    let (mut combat, mut spawn) = seed_combat_rng(42);
    let c: Vec<u64> = (0..4).map(|_| combat.0.gen::<u64>()).collect();
    let s: Vec<u64> = (0..4).map(|_| spawn.0.gen::<u64>()).collect();
    assert_ne!(c, s);
}

#[test]
fn charge_mult_maps_endpoints() {
    assert_eq!(charge_mult(None), 1_000_000, "None is an exact no-op");
    assert_eq!(charge_mult(Some(0)), 500_000, "Some(0) is the floor 0.5x");
    assert_eq!(charge_mult(Some(255)), 2_000_000, "Some(255) is the ceiling 2.0x");
}

#[test]
fn charge_mult_is_linear_between_endpoints() {
    assert_eq!(charge_mult(Some(17)), 600_000);
    assert_eq!(charge_mult(Some(1)), 505_882);
}

#[test]
fn double_speed_halves_durations() {
    // base windup 0.4 s at 2x speed -> 0.2 s
    assert_eq!(scale_durations((400_000, 200_000, 600_000), 2_000_000), (200_000, 100_000, 300_000));
    assert_eq!(scale_durations((400_000, 0, -100_000), 800_000), (500_000, 0, -125_000));
}

#[test]
fn can_cast_reports_the_first_failing_check() {
    let mut cd = Cooldowns::new();
    assert_eq!(can_cast(&cd, 1, "firebolt", true, true, true), Ok(()));
    assert_eq!(can_cast(&cd, 1, "firebolt", false, true, true), Err(CastRejectReason::UnknownSkill));
    assert_eq!(can_cast(&cd, 1, "firebolt", true, true, false), Err(CastRejectReason::InsufficientMana));
    cd.start(1, "firebolt", 1_000_000);
    assert_eq!(can_cast(&cd, 1, "firebolt", true, true, true), Err(CastRejectReason::OnCooldown));
}
