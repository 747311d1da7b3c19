//! The seeded random streams: one for combat resolution, one for emitter jitter.
use rand_chacha::rand_core::SeedableRng;
use rand_chacha::ChaCha8Rng;
use vstd::prelude::*;

verus! {

#[verifier::external_type_specification]
#[verifier::external_body]
pub struct ExChaCha8Rng(ChaCha8Rng);

/// The generator `ChaCha8Rng::seed_from_u64` builds from `seed` (a pure function of the seed).
pub uninterp spec fn chacha8_from_seed(seed: u64) -> ChaCha8Rng;

/// `ChaCha8Rng::seed_from_u64` (rand_core's `SeedableRng`): the generator for `seed`, a
/// deterministic expansion of the seed with no other input.
#[verifier::external_body]
fn chacha8_seeded(seed: u64) -> (r: ChaCha8Rng)
    ensures
        r == chacha8_from_seed(seed),
{
    ChaCha8Rng::seed_from_u64(seed)
}

/// What the spawn stream's seed is derived with from the combat seed.
pub const SPAWN_RNG_SEED_XOR: u64 = 0x5EED_5EED;

/// The only random stream threaded into combat.
pub struct CombatRng(pub ChaCha8Rng);

/// The dedicated stream for emitter jitter, so that emission never perturbs combat's draws.
pub struct SpawnRng(pub ChaCha8Rng);

impl Default for CombatRng {
    /// The seed-zero stream.
    fn default() -> (r: Self)
        ensures
            r.0 == chacha8_from_seed(0),
    {
        CombatRng(chacha8_seeded(0))
    }
}

impl Default for SpawnRng {
    /// The seed-zero stream.
    fn default() -> (r: Self)
        ensures
            r.0 == chacha8_from_seed(0),
    {
        SpawnRng(chacha8_seeded(0))
    }
}

/// The spawn stream's seed for combat seed `seed`.
pub open spec fn spawn_seed(seed: u64) -> u64 {
    seed ^ SPAWN_RNG_SEED_XOR
}

/// Both streams for a scenario seed: combat from `seed`, spawn from `seed ^ SPAWN_RNG_SEED_XOR`.
pub fn seed_combat_rng(seed: u64) -> (r: (CombatRng, SpawnRng))
    ensures
        r.0.0 == chacha8_from_seed(seed),
        r.1.0 == chacha8_from_seed(spawn_seed(seed)),
{
    (CombatRng(chacha8_seeded(seed)), SpawnRng(chacha8_seeded(seed ^ SPAWN_RNG_SEED_XOR)))
}

/// The two streams of one seed are never seeded alike.
pub proof fn lemma_streams_differ(seed: u64)
    ensures
        spawn_seed(seed) != seed,
{
    assert(seed ^ 0x5EED_5EEDu64 != seed) by (bit_vector);
}

} // verus!
