//! Orbital elements and the position resolver.
//!
//! `OrbitalParameters` holds the immutable Keplerian elements of one body;
//! `OrbitalState` holds the mutable propagation state: elapsed simulated
//! time, the current anomalies, and the cached planar position.  The state is
//! a pure function of the elements and the elapsed time ([`spec_state_at`]),
//! and it depends on the elapsed time only through its remainder modulo the
//! orbital period, which is what makes orbital closure exact.
//!
//! The resolver follows the classical chain: mean anomaly from elapsed time,
//! eccentric anomaly from Kepler's equation, true anomaly through
//! `atan2(sqrt(1 - e^2) sin E, cos E - e)`, radius `a (1 - e cos E)`, and a
//! final rotation by the argument of periapsis.  Orbits are deliberately
//! planar: inclination and ascending-node effects are out of scope.

use vstd::prelude::*;

verus! {

use crate::kepler::{solve, spec_residual, spec_solve, KeplerOutcome, KEPLER_TOL_NANO};
use crate::num::{lemma_smul_div_bound, mul_div_u64, smul_div_i64, spec_smul_div,
    MICRO_DEG_FULL_TURN, SCALE, TAU_NANO};
use crate::trig::{atan2_nano, cos_nano, sin_nano, spec_atan2, spec_cos, spec_sin};
use vstd::arithmetic::div_mod::{lemma_div_is_ordered, lemma_div_pos_is_pos,
    lemma_multiply_divide_lt};
use vstd::arithmetic::mul::{lemma_mul_left_inequality, lemma_mul_nonnegative,
    lemma_mul_strict_inequality};

/// Largest accepted semi-major axis, in milli-kilometres (4.6e12 km).
pub const SEMI_MAJOR_AXIS_MAX_MKM: i64 = 4_600_000_000_000_000;

/// Largest accepted orbital period, in milli-days (1e11 days).
pub const PERIOD_MAX_MILLIDAYS: u64 = 100_000_000_000_000;

/// Immutable Keplerian elements of one orbit, fixed at load time.
#[derive(Clone, Copy, Debug, PartialEq, Eq, Structural)]
pub struct OrbitalParameters {
    /// Semi-major axis in milli-kilometres; strictly positive.
    pub semi_major_axis_mkm: i64,
    /// Eccentricity in nano fixed point; elliptical only, so below one.
    pub eccentricity_nano: i64,
    /// `sqrt(1 - e^2)` in nano fixed point, derived once at construction.
    pub sqrt_one_minus_ecc_sq_nano: i64,
    /// Argument of periapsis in nano-radians, canonical range.
    pub arg_periapsis_nano: i64,
    /// Mean anomaly at the reference epoch in nano-radians, canonical range.
    pub mean_anomaly_epoch_nano: i64,
    /// Orbital period in milli-days; strictly positive.
    pub period_millidays: u64,
}

/// Well-formedness of orbital elements, including the derived square root.
pub open spec fn spec_params_valid(p: OrbitalParameters) -> bool {
    &&& 0 < p.semi_major_axis_mkm <= SEMI_MAJOR_AXIS_MAX_MKM
    &&& 0 <= p.eccentricity_nano < SCALE
    &&& 0 <= p.sqrt_one_minus_ecc_sq_nano <= SCALE
    &&& p.sqrt_one_minus_ecc_sq_nano * p.sqrt_one_minus_ecc_sq_nano <= (SCALE
        - p.eccentricity_nano) * (SCALE + p.eccentricity_nano)
    &&& (SCALE - p.eccentricity_nano) * (SCALE + p.eccentricity_nano) < (
    p.sqrt_one_minus_ecc_sq_nano + 1) * (p.sqrt_one_minus_ecc_sq_nano + 1)
    &&& 0 <= p.arg_periapsis_nano < TAU_NANO
    &&& 0 <= p.mean_anomaly_epoch_nano < TAU_NANO
    &&& 0 < p.period_millidays <= PERIOD_MAX_MILLIDAYS
}

impl OrbitalParameters {
    /// Builds validated elements, deriving `sqrt(1 - e^2)` by integer square
    /// root.
    pub fn new(
        semi_major_axis_mkm: i64,
        eccentricity_nano: i64,
        arg_periapsis_nano: i64,
        mean_anomaly_epoch_nano: i64,
        period_millidays: u64,
    ) -> (p: OrbitalParameters)
        requires
            0 < semi_major_axis_mkm <= SEMI_MAJOR_AXIS_MAX_MKM,
            0 <= eccentricity_nano < SCALE,
            0 <= arg_periapsis_nano < TAU_NANO,
            0 <= mean_anomaly_epoch_nano < TAU_NANO,
            0 < period_millidays <= PERIOD_MAX_MILLIDAYS,
        ensures
            spec_params_valid(p),
            p.semi_major_axis_mkm == semi_major_axis_mkm,
            p.eccentricity_nano == eccentricity_nano,
            p.arg_periapsis_nano == arg_periapsis_nano,
            p.mean_anomaly_epoch_nano == mean_anomaly_epoch_nano,
            p.period_millidays == period_millidays,
    {
        proof {
            lemma_mul_nonnegative((SCALE - eccentricity_nano) as int, (SCALE
                + eccentricity_nano) as int);
            assert(((SCALE - eccentricity_nano) as int) * ((SCALE + eccentricity_nano) as int)
                <= (SCALE as int) * (SCALE as int)) by (nonlinear_arith)
                requires
                    0 <= eccentricity_nano < SCALE,
            ;
        }
        let n: u64 = ((SCALE - eccentricity_nano) as u64) * ((SCALE + eccentricity_nano) as u64);
        let b: u64 = crate::num::isqrt_u64(n);
        proof {
            assert(b <= SCALE) by (nonlinear_arith)
                requires
                    (b as int) * (b as int) <= n as int,
                    n as int <= (SCALE as int) * (SCALE as int),
            ;
        }
        OrbitalParameters {
            semi_major_axis_mkm,
            eccentricity_nano,
            sqrt_one_minus_ecc_sq_nano: b as i64,
            arg_periapsis_nano,
            mean_anomaly_epoch_nano,
            period_millidays,
        }
    }
}

/// Mutable propagation state of one orbiting body.  All fields are derived
/// from the elements and the elapsed time; the position and angles are the
/// cache that queries read between advances.
#[derive(Clone, Copy, Debug, PartialEq, Eq, Structural)]
pub struct OrbitalState {
    /// The elements this state was propagated from.
    pub parameters: OrbitalParameters,
    /// Simulated time since the epoch, in milli-days.
    pub elapsed_millidays: u64,
    /// Current mean anomaly, nano-radians in the canonical range.
    pub mean_anomaly_nano: i64,
    /// Current eccentric anomaly, nano-radians in the canonical range.
    pub eccentric_anomaly_nano: i64,
    /// Whether the Kepler solver reached its tolerance for this state.
    pub solver_converged: bool,
    /// Current orbital radius in milli-kilometres.
    pub radius_mkm: i64,
    /// Polar angle of the position (true anomaly plus argument of
    /// periapsis), nano-radians in the canonical range.
    pub polar_angle_nano: i64,
    /// Cached Cartesian position, milli-kilometres.
    pub x_mkm: i64,
    /// Cached Cartesian position, milli-kilometres.
    pub y_mkm: i64,
}

/// Mean anomaly for a phase (elapsed time already reduced modulo the
/// period): the epoch anomaly plus the swept fraction of a full turn.
pub open spec fn spec_mean_anomaly(p: OrbitalParameters, phase: int) -> int {
    let swept = (TAU_NANO as int) * phase / (p.period_millidays as int);
    let m = p.mean_anomaly_epoch_nano + swept;
    if m >= TAU_NANO {
        m - TAU_NANO
    } else {
        m
    }
}

/// The full state derived from a phase in `[0, period)`; the caller fills
/// in the elapsed time, so everything here is a function of the elements
/// and the phase alone.
#[verifier::opaque]
pub open spec fn spec_state_from_phase(p: OrbitalParameters, phase: int) -> OrbitalState {
    let m = spec_mean_anomaly(p, phase);
    let k = spec_solve(p.eccentricity_nano as int, m);
    let ea = k.eccentric_anomaly_nano as int;
    let s = spec_sin(ea);
    let c = spec_cos(ea);
    let yy = spec_smul_div(p.sqrt_one_minus_ecc_sq_nano as int, s, SCALE as int);
    let xx = c - p.eccentricity_nano;
    let nu = spec_atan2(yy, xx);
    let ecs = spec_smul_div(p.eccentricity_nano as int, c, SCALE as int);
    let radius = (p.semi_major_axis_mkm as int) * ((SCALE as int) - ecs) / (SCALE as int);
    let th0 = nu + p.arg_periapsis_nano;
    let theta = if th0 >= TAU_NANO {
        th0 - TAU_NANO
    } else {
        th0
    };
    OrbitalState {
        parameters: p,
        elapsed_millidays: 0,
        mean_anomaly_nano: m as i64,
        eccentric_anomaly_nano: ea as i64,
        solver_converged: k.converged,
        radius_mkm: radius as i64,
        polar_angle_nano: theta as i64,
        x_mkm: spec_smul_div(radius, spec_cos(theta), SCALE as int) as i64,
        y_mkm: spec_smul_div(radius, spec_sin(theta), SCALE as int) as i64,
    }
}

/// The state of a body after `elapsed` milli-days of simulated time: the
/// phase-determined state, stamped with the elapsed time itself.
pub open spec fn spec_state_at(p: OrbitalParameters, elapsed: int) -> OrbitalState {
    OrbitalState {
        parameters: p,
        elapsed_millidays: elapsed as u64,
        ..spec_state_from_phase(p, elapsed % (p.period_millidays as int))
    }
}

/// Range facts about every well-formed state produced by the resolver.
pub open spec fn spec_state_ranges(st: OrbitalState) -> bool {
    &&& 0 <= st.mean_anomaly_nano < TAU_NANO
    &&& 0 <= st.eccentric_anomaly_nano < TAU_NANO
    &&& 0 <= st.polar_angle_nano < TAU_NANO
    &&& 0 <= st.radius_mkm <= 2 * SEMI_MAJOR_AXIS_MAX_MKM
    &&& -(2 * SEMI_MAJOR_AXIS_MAX_MKM) <= st.x_mkm <= 2 * SEMI_MAJOR_AXIS_MAX_MKM
    &&& -(2 * SEMI_MAJOR_AXIS_MAX_MKM) <= st.y_mkm <= 2 * SEMI_MAJOR_AXIS_MAX_MKM
}

/// Propagates the elements to `elapsed` milli-days: runs the Kepler solver
/// and the position resolver, and returns exactly [`spec_state_at`].
pub fn resolve_state(p: &OrbitalParameters, elapsed: u64) -> (st: OrbitalState)
    requires
        spec_params_valid(*p),
    ensures
        st == spec_state_at(*p, elapsed as int),
        spec_state_ranges(st),
        st.parameters == *p,
        st.elapsed_millidays == elapsed,
{
    proof {
        reveal(spec_state_from_phase);
    }
    let period: u64 = p.period_millidays;
    let phase: u64 = elapsed % period;
    proof {
        lemma_mul_strict_inequality(phase as int, period as int, TAU_NANO as int);
        lemma_multiply_divide_lt((TAU_NANO as int) * (phase as int), period as int,
            TAU_NANO as int);
        lemma_mul_nonnegative(TAU_NANO as int, phase as int);
        lemma_div_pos_is_pos((TAU_NANO as int) * (phase as int), period as int);
    }
    let swept: u64 = mul_div_u64(TAU_NANO as u64, phase, period);
    let m0: i64 = p.mean_anomaly_epoch_nano + (swept as i64);
    let m: i64 = if m0 >= TAU_NANO {
        m0 - TAU_NANO
    } else {
        m0
    };
    let k: KeplerOutcome = solve(p.eccentricity_nano, m);
    let ea: i64 = k.eccentric_anomaly_nano;
    let s: i64 = sin_nano(ea);
    let c: i64 = cos_nano(ea);
    proof {
        lemma_smul_div_bound(p.sqrt_one_minus_ecc_sq_nano as int, s as int, SCALE as int);
        lemma_smul_div_bound(p.eccentricity_nano as int, c as int, SCALE as int);
    }
    let yy: i64 = smul_div_i64(p.sqrt_one_minus_ecc_sq_nano, s, SCALE);
    let xx: i64 = c - p.eccentricity_nano;
    let nu: i64 = atan2_nano(yy, xx);
    let ecs: i64 = smul_div_i64(p.eccentricity_nano, c, SCALE);
    let factor: i64 = SCALE - ecs;
    proof {
        lemma_mul_left_inequality(p.semi_major_axis_mkm as int, factor as int, 2 * (
        SCALE as int));
        lemma_div_is_ordered((p.semi_major_axis_mkm as int) * (factor as int),
            (p.semi_major_axis_mkm as int) * (2 * SCALE as int), SCALE as int);
        assert((p.semi_major_axis_mkm as int) * (2 * SCALE as int) / (SCALE as int) == 2 * (
        p.semi_major_axis_mkm as int)) by (nonlinear_arith)
            requires
                SCALE == 1_000_000_000i64,
        ;
        lemma_mul_nonnegative(p.semi_major_axis_mkm as int, factor as int);
        lemma_div_pos_is_pos((p.semi_major_axis_mkm as int) * (factor as int), SCALE as int);
    }
    let radius: u64 = mul_div_u64(p.semi_major_axis_mkm as u64, factor as u64, SCALE as u64);
    let radius: i64 = radius as i64;
    let th0: i64 = nu + p.arg_periapsis_nano;
    let theta: i64 = if th0 >= TAU_NANO {
        th0 - TAU_NANO
    } else {
        th0
    };
    let ct: i64 = cos_nano(theta);
    let stheta: i64 = sin_nano(theta);
    proof {
        lemma_smul_div_bound(radius as int, ct as int, SCALE as int);
        lemma_smul_div_bound(radius as int, stheta as int, SCALE as int);
    }
    let x: i64 = smul_div_i64(radius, ct, SCALE);
    let y: i64 = smul_div_i64(radius, stheta, SCALE);
    OrbitalState {
        parameters: *p,
        elapsed_millidays: elapsed,
        mean_anomaly_nano: m,
        eccentric_anomaly_nano: ea,
        solver_converged: k.converged,
        radius_mkm: radius,
        polar_angle_nano: theta,
        x_mkm: x,
        y_mkm: y,
    }
}

impl OrbitalState {
    /// The cached planar position, milli-kilometres.
    pub fn position(&self) -> (r: (i64, i64))
        ensures
            r.0 == self.x_mkm,
            r.1 == self.y_mkm,
    {
        (self.x_mkm, self.y_mkm)
    }

    /// The polar display angle in micro-degrees, in `[0, 360_000_000)`.
    pub fn angle_microdegrees(&self) -> (r: u64)
        requires
            0 <= self.polar_angle_nano < TAU_NANO,
        ensures
            r == (self.polar_angle_nano as int) * (MICRO_DEG_FULL_TURN as int) / (
            TAU_NANO as int),
            r < MICRO_DEG_FULL_TURN,
    {
        proof {
            lemma_mul_strict_inequality(self.polar_angle_nano as int, TAU_NANO as int,
                MICRO_DEG_FULL_TURN as int);
            lemma_multiply_divide_lt((self.polar_angle_nano as int) * (
            MICRO_DEG_FULL_TURN as int), TAU_NANO as int, MICRO_DEG_FULL_TURN as int);
            lemma_mul_nonnegative(self.polar_angle_nano as int, MICRO_DEG_FULL_TURN as int);
            lemma_div_pos_is_pos((self.polar_angle_nano as int) * (MICRO_DEG_FULL_TURN as int),
                TAU_NANO as int);
        }
        mul_div_u64(self.polar_angle_nano as u64, MICRO_DEG_FULL_TURN as u64, TAU_NANO as u64)
    }

    /// Whether the solver reached its tolerance for this state; a `false`
    /// value is the non-fatal precision warning of the design.
    pub fn solver_within_tolerance(&self) -> (r: bool)
        ensures
            r == self.solver_converged,
    {
        self.solver_converged
    }
}

} // verus!
