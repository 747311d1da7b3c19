//! Cast requests: the charge multiplier and speed-scaled phase durations.
use crate::units::{Fixed, Micros, UNIT};
use vstd::prelude::*;

verus! {

/// The multiplier (in millionths) a per-cast charge applies to projectile speed and damage:
/// uncharged is 1x; a charge `c` scales linearly from 0.5x at 0 to 2x at 255.
pub fn charge_mult(charge: Option<u8>) -> (r: Fixed)
    ensures
        r == match charge {
            None => UNIT as int,
            Some(c) => 500_000 + (c as int * 1_500_000) / 255,
        },
{
    match charge {
        None => UNIT,
        Some(c) => 500_000 + (c as i64 * 1_500_000) / 255,
    }
}

/// Magnitude bound of a scaled phase duration: three of them always sum within `i64`.
pub const PHASE_LIMIT: Micros = 0x1FFF_FFFF_FFFF_FFFF;

/// `d` at speed `rate` (millionths), truncated toward zero and saturated at [`PHASE_LIMIT`].
pub open spec fn scaled(d: Micros, rate: Fixed) -> int {
    let mag = if d >= 0 { d as int } else { -(d as int) };
    let q = mag * UNIT / (rate as int);
    let capped = if q > PHASE_LIMIT { PHASE_LIMIT as int } else { q };
    if d >= 0 { capped } else { -capped }
}

fn scale_one(d: Micros, rate: Fixed) -> (r: Micros)
    requires
        rate > 0,
    ensures
        r == scaled(d, rate),
        -PHASE_LIMIT <= r <= PHASE_LIMIT,
{
    let mag: u128 = if d >= 0 { d as u128 } else { (-(d as i128)) as u128 };
    assert(mag <= 0x8000_0000_0000_0000u128);
    assert(mag * 1_000_000 <= 0x8000_0000_0000_0000u128 * 1_000_000) by (nonlinear_arith)
        requires
            mag <= 0x8000_0000_0000_0000u128,
    ;
    let q: u128 = mag * (UNIT as u128) / (rate as u128);
    let capped: i64 = if q > PHASE_LIMIT as u128 { PHASE_LIMIT } else { q as i64 };
    if d >= 0 { capped } else { -capped }
}

/// The phase durations at speed `rate` (millionths; the caster's effective cast or attack rate,
/// always positive): each authored duration divided by the rate.
pub fn scale_durations(base: (Micros, Micros, Micros), rate: Fixed) -> (r: (Micros, Micros, Micros))
    requires
        rate > 0,
    ensures
        r.0 == scaled(base.0, rate),
        r.1 == scaled(base.1, rate),
        r.2 == scaled(base.2, rate),
        i64::MIN <= r.0 + r.1 <= i64::MAX,
        i64::MIN <= r.0 + r.1 + r.2 <= i64::MAX,
{
    (scale_one(base.0, rate), scale_one(base.1, rate), scale_one(base.2, rate))
}

} // verus!
