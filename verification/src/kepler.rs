//! Newton-Raphson solution of Kepler's equation `E - e sin E = M` in nano
//! fixed point.
//!
//! The solver is seeded with the mean anomaly (or with pi for strongly
//! eccentric orbits), iterates a bounded number of times, and stops as soon as
//! the fixed-point residual falls inside the tolerance.  When the iteration
//! bound is exhausted the best estimate is returned with `converged == false`:
//! a numeric near-miss must never abort a simulation turn, so the condition is
//! reported instead of raised as an error.

use vstd::prelude::*;

verus! {

use crate::num::{lemma_smul_div_bound, smul_div_i64, spec_smul_div, mul_div_u64, SCALE, PI_NANO, TAU_NANO};
use crate::trig::{cos_nano, sin_nano, spec_cos, spec_sin};
use vstd::arithmetic::div_mod::{lemma_div_nonincreasing, lemma_div_pos_is_pos};
use vstd::arithmetic::mul::{lemma_mul_inequality, lemma_mul_nonnegative};

/// Absolute fixed-point tolerance on the residual, in nano-radians (1e-8 rad).
pub const KEPLER_TOL_NANO: i64 = 10;

/// Bound on the number of Newton iterations.
pub const KEPLER_MAX_ITER: u64 = 30;

/// Above this eccentricity the iteration is seeded with pi instead of the
/// mean anomaly.
pub const HIGH_ECC_SEED_NANO: i64 = 800_000_000;

/// The solver's result: the eccentric anomaly estimate, and whether the
/// residual tolerance was reached within the iteration bound.
#[derive(Clone, Copy, Debug, PartialEq, Eq, Structural)]
pub struct KeplerOutcome {
    pub eccentric_anomaly_nano: i64,
    pub converged: bool,
}

/// Fixed-point residual of Kepler's equation at the estimate `ea`.
pub open spec fn spec_residual(e: int, m: int, ea: int) -> int {
    ea - spec_smul_div(e, spec_sin(ea), SCALE as int) - m
}

/// One Newton step from the estimate `ea`, clamped into the canonical angle
/// range: both the mean anomaly and the solution live in `[0, TAU_NANO)`,
/// so an overshoot past either end is cut off rather than wrapped around.
pub open spec fn spec_newton_step(e: int, m: int, ea: int) -> int {
    let denom = (SCALE as int) - spec_smul_div(e, spec_cos(ea), SCALE as int);
    let delta = spec_smul_div(SCALE as int, spec_residual(e, m, ea), denom);
    let raw = ea - delta;
    if raw < 0 {
        0
    } else if raw >= TAU_NANO {
        TAU_NANO - 1
    } else {
        raw
    }
}

/// The bounded iteration: stop on a small residual, or when the fuel runs
/// out, and otherwise take a Newton step.
pub open spec fn spec_newton(e: int, m: int, ea: int, fuel: nat) -> KeplerOutcome
    decreases fuel,
{
    let f = spec_residual(e, m, ea);
    if -KEPLER_TOL_NANO < f < KEPLER_TOL_NANO {
        KeplerOutcome { eccentric_anomaly_nano: ea as i64, converged: true }
    } else if fuel == 0 {
        KeplerOutcome { eccentric_anomaly_nano: ea as i64, converged: false }
    } else {
        spec_newton(e, m, spec_newton_step(e, m, ea), (fuel - 1) as nat)
    }
}

/// Seed of the iteration, as a function of eccentricity.
pub open spec fn spec_seed(e: int, m: int) -> int {
    if e < HIGH_ECC_SEED_NANO {
        m
    } else {
        PI_NANO as int
    }
}

/// The solver as a mathematical function of mean anomaly and eccentricity.
pub open spec fn spec_solve(e: int, m: int) -> KeplerOutcome {
    spec_newton(e, m, spec_seed(e, m), KEPLER_MAX_ITER as nat)
}

/// Solves Kepler's equation for eccentricity `e` (nano fixed point, below
/// one) and mean anomaly `m` (nano-radians in the canonical range).
///
/// The result is exactly [`spec_solve`]; when `converged` is reported the
/// residual of the returned anomaly is inside the tolerance.
pub fn solve(e: i64, m: i64) -> (r: KeplerOutcome)
    requires
        0 <= e < SCALE,
        0 <= m < TAU_NANO,
    ensures
        r == spec_solve(e as int, m as int),
        0 <= r.eccentric_anomaly_nano < TAU_NANO,
        r.converged ==> -KEPLER_TOL_NANO < spec_residual(e as int, m as int,
            r.eccentric_anomaly_nano as int) < KEPLER_TOL_NANO,
{
    let mut ea: i64 = if e < HIGH_ECC_SEED_NANO {
        m
    } else {
        PI_NANO
    };
    let mut fuel: u64 = KEPLER_MAX_ITER;
    loop
        invariant
            0 <= e < SCALE,
            0 <= m < TAU_NANO,
            0 <= ea < TAU_NANO,
            fuel <= KEPLER_MAX_ITER,
            spec_solve(e as int, m as int) == spec_newton(e as int, m as int, ea as int,
                fuel as nat),
        decreases fuel,
    {
        let s: i64 = sin_nano(ea);
        proof {
            lemma_smul_div_bound(e as int, s as int, SCALE as int);
        }
        let es: i64 = smul_div_i64(e, s, SCALE);
        let f: i64 = ea - es - m;
        if -KEPLER_TOL_NANO < f && f < KEPLER_TOL_NANO {
            return KeplerOutcome { eccentric_anomaly_nano: ea, converged: true };
        }
        if fuel == 0 {
            return KeplerOutcome { eccentric_anomaly_nano: ea, converged: false };
        }
        let c: i64 = cos_nano(ea);
        proof {
            lemma_smul_div_bound(e as int, c as int, SCALE as int);
        }
        let ec: i64 = smul_div_i64(e, c, SCALE);
        let denom: i64 = SCALE - ec;
        let af: u64 = if f >= 0 {
            f as u64
        } else {
            (-f) as u64
        };
        proof {
            lemma_mul_inequality(af as int, 2 * (TAU_NANO as int), SCALE as int);
            lemma_div_nonincreasing((af as int) * (SCALE as int), denom as int);
            lemma_mul_nonnegative(af as int, SCALE as int);
            lemma_div_pos_is_pos((af as int) * (SCALE as int), denom as int);
        }
        let mag: u64 = mul_div_u64(af, SCALE as u64, denom as u64);
        let delta: i64 = if f >= 0 {
            mag as i64
        } else {
            -(mag as i64)
        };
        proof {
            assert(spec_smul_div(SCALE as int, f as int, denom as int) == delta as int);
        }
        let raw: i64 = ea - delta;
        let next: i64 = if raw < 0 {
            0
        } else if raw >= TAU_NANO {
            TAU_NANO - 1
        } else {
            raw
        };
        proof {
            assert(spec_newton_step(e as int, m as int, ea as int) == next as int);
            assert(spec_newton(e as int, m as int, ea as int, fuel as nat) == spec_newton(
                e as int, m as int, next as int, (fuel - 1) as nat));
        }
        ea = next;
        fuel = fuel - 1;
    }
}

} // verus!
