//! The engine's laws: properties that hold of every input, stated over the
//! spec-level models and proved once and for all.

use vstd::prelude::*;

verus! {

use crate::loader::{lemma_parsed_rows_distinct, spec_load_table, spec_names_distinct,
    spec_split};
use crate::num::{spec_smul_div, SCALE};
use crate::orbit::{spec_state_at, spec_state_from_phase, spec_params_valid, OrbitalParameters};
use crate::system::{spec_body_advanced, spec_manager_advanced, spec_manager_wf, SystemView};
use vstd::arithmetic::div_mod::{lemma_div_multiples_vanish, lemma_hoist_over_denominator,
    lemma_mod_add_multiples_vanish};

/// Circular orbits keep their distance: for eccentricity zero the resolved
/// radius equals the semi-major axis exactly, at every elapsed time.
pub proof fn lemma_circular_orbit_radius(p: OrbitalParameters, elapsed: int)
    requires
        spec_params_valid(p),
        p.eccentricity_nano == 0,
    ensures
        spec_state_at(p, elapsed).radius_mkm == p.semi_major_axis_mkm,
{
    reveal(spec_state_from_phase);
    let c = crate::trig::spec_cos(
        crate::kepler::spec_solve(0, crate::orbit::spec_mean_anomaly(p, elapsed % (
        p.period_millidays as int))).eccentric_anomaly_nano as int,
    );
    assert(spec_smul_div(0, c, SCALE as int) == 0);
    lemma_div_multiples_vanish(p.semi_major_axis_mkm as int, SCALE as int);
}

/// Circular orbits keep their distance, seen through the manager: a
/// well-formed system's body with eccentricity zero always shows a cached
/// radius equal to its semi-major axis.
pub proof fn lemma_circular_body_radius(v: SystemView, i: int)
    requires
        spec_manager_wf(v),
        0 <= i < v.bodies.len(),
    ensures
        match v.bodies[i].orbital_state {
            Option::Some(st) => st.parameters.eccentricity_nano == 0
                ==> st.radius_mkm == st.parameters.semi_major_axis_mkm,
            Option::None => true,
        },
{
    match v.bodies[i].orbital_state {
        Option::Some(st) => {
            if st.parameters.eccentricity_nano == 0 {
                lemma_circular_orbit_radius(st.parameters, v.elapsed_millidays);
            }
        },
        Option::None => {},
    }
}

/// Orbital closure: advancing a body by exactly its own period brings it
/// back to the same position, angle and anomalies — not merely within a
/// tolerance but to the very same fixed-point state.
pub proof fn lemma_orbital_closure(p: OrbitalParameters, elapsed: int)
    requires
        spec_params_valid(p),
    ensures
        spec_state_at(p, elapsed + p.period_millidays).x_mkm == spec_state_at(p, elapsed).x_mkm,
        spec_state_at(p, elapsed + p.period_millidays).y_mkm == spec_state_at(p, elapsed).y_mkm,
        spec_state_at(p, elapsed + p.period_millidays).radius_mkm == spec_state_at(p,
            elapsed).radius_mkm,
        spec_state_at(p, elapsed + p.period_millidays).polar_angle_nano == spec_state_at(p,
            elapsed).polar_angle_nano,
        spec_state_at(p, elapsed + p.period_millidays).mean_anomaly_nano == spec_state_at(p,
            elapsed).mean_anomaly_nano,
        spec_state_at(p, elapsed + p.period_millidays).eccentric_anomaly_nano == spec_state_at(
            p, elapsed).eccentric_anomaly_nano,
{
    let period = p.period_millidays as int;
    lemma_mod_add_multiples_vanish(elapsed, period);
    assert((elapsed + period) % period == elapsed % period);
}

/// Orbital closure, seen through the manager: after one further advance by
/// a body's own period, that body's position is unchanged.
pub proof fn lemma_system_orbital_closure(v: SystemView, i: int, millidays: int)
    requires
        spec_manager_wf(v),
        0 <= i < v.bodies.len(),
        0 <= millidays,
    ensures
        match v.bodies[i].orbital_state {
            Option::Some(st) => {
                &&& spec_manager_advanced(v, millidays).bodies[i].orbital_state
                    matches Option::Some(s1)
                &&& spec_manager_advanced(v, millidays
                    + st.parameters.period_millidays).bodies[i].orbital_state
                    matches Option::Some(s2)
                &&& s1.x_mkm == s2.x_mkm
                &&& s1.y_mkm == s2.y_mkm
                &&& s1.polar_angle_nano == s2.polar_angle_nano
            },
            Option::None => true,
        },
{
    match v.bodies[i].orbital_state {
        Option::Some(st) => {
            lemma_orbital_closure(st.parameters, v.elapsed_millidays + millidays);
        },
        Option::None => {},
    }
}

/// Additivity of elapsed time: advancing by `d1` and then by `d2` yields
/// exactly the same system state as advancing once by `d1 + d2`.
pub proof fn lemma_advance_additive(v: SystemView, d1: int, d2: int)
    requires
        0 <= d1,
        0 <= d2,
    ensures
        spec_manager_advanced(spec_manager_advanced(v, d1), d2) == spec_manager_advanced(v, d1
            + d2),
{
    let va = spec_manager_advanced(v, d1);
    let vb = spec_manager_advanced(va, d2);
    let vc = spec_manager_advanced(v, d1 + d2);
    assert forall|i: int| 0 <= i < v.bodies.len() implies vb.bodies[i] == vc.bodies[i] by {
        assert(va.bodies[i] == spec_body_advanced(v.bodies[i], v.elapsed_millidays + d1));
        assert(vb.bodies[i] == spec_body_advanced(va.bodies[i], v.elapsed_millidays + d1 + d2));
    }
    assert(vb.bodies =~= vc.bodies);
    assert(vb =~= vc);
}

/// Exact calendar arithmetic: advancing by a whole number of days moves the
/// current day number by exactly that many days, whatever fraction of a day
/// was already pending.
pub proof fn lemma_date_advances_by_whole_days(v: SystemView, days: int)
    requires
        0 <= days,
        0 <= v.elapsed_millidays,
    ensures
        ({
            let after = spec_manager_advanced(v, days * 1_000);
            after.epoch_day_number + after.elapsed_millidays / 1_000 == v.epoch_day_number
                + v.elapsed_millidays / 1_000 + days
        }),
{
    lemma_hoist_over_denominator(v.elapsed_millidays, days, 1_000nat);
}

/// A loaded registry never holds two bodies of the same name: a table with
/// a duplicate cannot load successfully, so the duplicate-name failure never
/// leaves a partial registry behind.
pub proof fn lemma_load_rejects_duplicate_names(src: Seq<u8>)
    ensures
        spec_load_table(src) matches Result::Ok(rows) ==> spec_names_distinct(rows),
{
    if spec_load_table(src) matches Result::Ok(rows) {
        lemma_parsed_rows_distinct(spec_split(src, 10), 1, Seq::empty());
    }
}

} // verus!
