use vstd::prelude::*;

verus! {

/// A simulation time or duration in whole microseconds. Content authors write seconds; the
/// library keeps every clock in this fixed-point unit so that all time arithmetic is exact.
pub type Micros = i64;

/// A real-valued content scalar (a distance, a rate, a radius) in millionths of its unit, the
/// same fixed-point scale as [`Micros`].
pub type Fixed = i64;

/// Fixed-point units in one whole unit (and microseconds in one second).
pub const UNIT: i64 = 1_000_000;

/// `x` clamped into the range of `i64` (the saturating result of a time computation).
pub open spec fn clamp_i64(x: int) -> int {
    if x > i64::MAX {
        i64::MAX as int
    } else if x < i64::MIN {
        i64::MIN as int
    } else {
        x
    }
}

/// Saturating `a + b`.
pub fn sat_add(a: Micros, b: Micros) -> (r: Micros)
    ensures
        r == clamp_i64(a + b),
{
    let s: i128 = a as i128 + b as i128;
    if s > i64::MAX as i128 {
        i64::MAX
    } else if s < i64::MIN as i128 {
        i64::MIN
    } else {
        s as i64
    }
}

/// Saturating `a - b`.
pub fn sat_sub(a: Micros, b: Micros) -> (r: Micros)
    ensures
        r == clamp_i64(a - b),
{
    let s: i128 = a as i128 - b as i128;
    if s > i64::MAX as i128 {
        i64::MAX
    } else if s < i64::MIN as i128 {
        i64::MIN
    } else {
        s as i64
    }
}

} // verus!
