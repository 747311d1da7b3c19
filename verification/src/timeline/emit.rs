//! The emitter clock: a live hitbox whose window carries an emitter instantiates its
//! `Template` window once per emission period, `1 / rate` seconds.
use crate::units::{Fixed, Micros, UNIT};
use vstd::prelude::*;

verus! {

/// The emission period for `rate` spawns per second (rate in millionths): `1 / rate` seconds in
/// whole microseconds, never less than one.
pub open spec fn emit_period(rate: Fixed) -> int {
    let p = (UNIT as int * UNIT as int) / (rate as int);
    if p < 1 { 1 } else { p }
}

/// Time an emitter has accumulated toward its next emission.
#[derive(Clone, Copy, Debug, Default)]
pub struct EmitterClock {
    pub since: Micros,
}

impl EmitterClock {
    /// The clock is below one period.
    pub open spec fn wf(&self, rate: Fixed) -> bool {
        0 <= self.since < emit_period(rate)
    }

    /// Advance by `dt`: the number of emissions due (one per whole period that completes), the
    /// remainder carried to the next step. The clock may hold more than a period (its rate
    /// changed since the last step); every whole period in it is then due at once.
    pub fn tick(&mut self, dt: Micros, rate: Fixed) -> (n: u64)
        requires
            rate > 0,
            0 <= old(self).since,
            0 <= dt,
        ensures
            final(self).wf(rate),
            n == (old(self).since + dt) / emit_period(rate),
            final(self).since == (old(self).since + dt) % emit_period(rate),
    {
        let p128: i128 = (UNIT as i128 * UNIT as i128) / (rate as i128);
        let p: i128 = if p128 < 1 { 1 } else { p128 };
        let total: i128 = self.since as i128 + dt as i128;
        let n = total / p;
        let rest = total % p;
        proof {
            assert(p == emit_period(rate));
            assert(0 <= rest < p);
            assert(p128 <= UNIT as int * UNIT as int) by (nonlinear_arith)
                requires
                    rate >= 1,
                    UNIT >= 0,
                    p128 == (UNIT as int * UNIT as int) / (rate as int),
            ;
            assert(UNIT as int * UNIT as int <= 1_000_000_000_000) by (nonlinear_arith)
                requires
                    UNIT == 1_000_000,
            ;
            assert(n <= total) by (nonlinear_arith)
                requires
                    p >= 1,
                    total >= 0,
                    n == total / p,
            ;
        }
        self.since = rest as i64;
        n as u64
    }
}

/// Over any run of steps, emissions keep pace with time: after a step the emitted count plus
/// the carried remainder account for exactly the time elapsed.
pub proof fn lemma_emissions_account_for_time(since: int, dt: int, p: int)
    requires
        p >= 1,
        0 <= since < p,
        0 <= dt,
    ensures
        ((since + dt) / p) * p + (since + dt) % p == since + dt,
        0 <= (since + dt) % p < p,
{
    assert(((since + dt) / p) * p + (since + dt) % p == since + dt) by (nonlinear_arith)
        requires
            p >= 1,
    ;
}

} // verus!
