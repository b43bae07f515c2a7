//! The celestial body registry and the solar system manager.
//!
//! The manager owns the registry (a list of bodies with pairwise distinct
//! names) and the simulated calendar: an epoch day number plus the total
//! elapsed simulated time.  `advance` is the sole mutation point of orbital
//! state: it recomputes every body's state for the new elapsed time and
//! commits the whole new registry at once, so callers never observe a mix of
//! old and new positions.  The well-formedness invariant ties every cached
//! state to [`crate::orbit::spec_state_at`] at the manager's own elapsed
//! time: all bodies are always mutually consistent at the same instant.

use vstd::prelude::*;

verus! {

use crate::calendar::{civil_from_days, spec_date_valid, spec_day_number, Date};
use crate::loader::{parse_table, spec_load_table, LoadError, ParsedRow, RowView};
use crate::orbit::{resolve_state, spec_params_valid, spec_state_at, spec_state_ranges,
    OrbitalState};
use vstd::slice::slice_to_vec;

/// Cap on total elapsed simulated time: one hundred thousand years of
/// milli-days.
pub const MAX_ELAPSED_MILLIDAYS: u64 = 36_525_000_000;

/// Cap on the epoch's day number (roughly year nine thousand).
pub const EPOCH_DAY_NUMBER_MAX: u64 = 4_000_000;

/// Classifier for bodies that carry no orbital elements.
#[derive(Clone, Copy, Debug, PartialEq, Eq, Structural)]
pub enum CelestialBodyType {
    Star,
}

/// One entry of the registry: identity plus optional orbital state.  A body
/// without orbital state (the central star) is static at the origin.
#[derive(Debug)]
pub struct CelestialBody {
    /// Unique, case-sensitive primary key (UTF-8 bytes).
    pub name: Vec<u8>,
    /// Unique identifier, assigned by the registry on load.
    pub id: u64,
    /// Free-text region tag for consumers; not interpreted by the engine.
    pub region: Vec<u8>,
    /// The propagation state, present for orbiting bodies only.
    pub orbital_state: Option<OrbitalState>,
}

/// Mathematical image of one registry entry.
#[verifier::ext_equal]
pub ghost struct BodyView {
    pub name: Seq<u8>,
    pub id: u64,
    pub region: Seq<u8>,
    pub orbital_state: Option<OrbitalState>,
}

impl View for CelestialBody {
    type V = BodyView;

    open spec fn view(&self) -> BodyView {
        BodyView {
            name: self.name@,
            id: self.id,
            region: self.region@,
            orbital_state: self.orbital_state,
        }
    }
}

/// Mathematical image of the whole manager.
#[verifier::ext_equal]
pub ghost struct SystemView {
    pub bodies: Seq<BodyView>,
    pub epoch_day_number: int,
    pub elapsed_millidays: int,
}

/// The solar system manager: the registry of bodies and the simulated
/// calendar, with `advance` as the only mutator of orbital state.
#[derive(Debug)]
pub struct SolarSystemManager {
    /// The registry; names are pairwise distinct, ids equal positions.
    pub bodies: Vec<CelestialBody>,
    /// Day number of the load-time epoch.
    pub epoch_day_number: u64,
    /// Total elapsed simulated time since the epoch, in milli-days.
    pub elapsed_millidays: u64,
}

impl View for SolarSystemManager {
    type V = SystemView;

    open spec fn view(&self) -> SystemView {
        SystemView {
            bodies: self.bodies@.map_values(|b: CelestialBody| b@),
            epoch_day_number: self.epoch_day_number as int,
            elapsed_millidays: self.elapsed_millidays as int,
        }
    }
}

/// A body is well formed at a given instant when its cached state is exactly
/// the propagation of its own elements to that instant.
pub open spec fn spec_body_wf(b: BodyView, elapsed: int) -> bool {
    match b.orbital_state {
        Option::None => true,
        Option::Some(st) => {
            &&& spec_params_valid(st.parameters)
            &&& st == spec_state_at(st.parameters, elapsed)
            &&& spec_state_ranges(st)
        },
    }
}

/// Manager invariant: calendar in range, ids equal to positions, names
/// pairwise distinct, and every body consistent at the manager's elapsed
/// time.
pub open spec fn spec_manager_wf(v: SystemView) -> bool {
    &&& 0 <= v.elapsed_millidays <= MAX_ELAPSED_MILLIDAYS
    &&& 0 <= v.epoch_day_number <= EPOCH_DAY_NUMBER_MAX
    &&& forall|i: int| 0 <= i < v.bodies.len() ==> (#[trigger] v.bodies[i]).id == i
    &&& forall|i: int, j: int|
        0 <= i < j < v.bodies.len() ==> (#[trigger] v.bodies[i]).name != (
        #[trigger] v.bodies[j]).name
    &&& forall|i: int|
        0 <= i < v.bodies.len() ==> spec_body_wf(#[trigger] v.bodies[i], v.elapsed_millidays)
}

/// One body after an advance: identity untouched, state repropagated.
pub open spec fn spec_body_advanced(b: BodyView, elapsed: int) -> BodyView {
    BodyView {
        orbital_state: match b.orbital_state {
            Option::None => Option::None,
            Option::Some(st) => Option::Some(spec_state_at(st.parameters, elapsed)),
        },
        ..b
    }
}

/// The whole manager after advancing by `millidays`.
pub open spec fn spec_manager_advanced(v: SystemView, millidays: int) -> SystemView {
    SystemView {
        bodies: Seq::new(v.bodies.len(), |i: int| spec_body_advanced(v.bodies[i],
            v.elapsed_millidays + millidays)),
        epoch_day_number: v.epoch_day_number,
        elapsed_millidays: v.elapsed_millidays + millidays,
    }
}

/// Byte-wise equality of two slices, specified against their views.
pub fn bytes_eq(a: &[u8], b: &[u8]) -> (r: bool)
    ensures
        r == (a@ == b@),
{
    if a.len() != b.len() {
        proof {
            assert(a@.len() != b@.len());
        }
        return false;
    }
    let n: usize = a.len();
    let mut i: usize = 0;
    while i < n
        invariant
            0 <= i <= n,
            n == a@.len() == b@.len(),
            forall|j: int| 0 <= j < i ==> a@[j] == b@[j],
        decreases n - i,
    {
        if a[i] != b[i] {
            proof {
                assert(a@[i as int] != b@[i as int]);
            }
            return false;
        }
        i = i + 1;
    }
    proof {
        assert(a@ =~= b@);
    }
    true
}

impl SolarSystemManager {
    /// A fresh manager with an empty registry at the given epoch date.
    pub fn new(epoch: Date) -> (m: SolarSystemManager)
        requires
            spec_date_valid(epoch),
            epoch.year <= 9_000,
        ensures
            spec_manager_wf(m@),
            m@.bodies.len() == 0,
            m@.epoch_day_number == spec_day_number(epoch),
            m@.elapsed_millidays == 0,
    {
        let day: u64 = epoch.day_number();
        SolarSystemManager { bodies: Vec::new(), epoch_day_number: day, elapsed_millidays: 0 }
    }

    /// Advances simulated time by `millidays` and repropagates every body to
    /// the new instant.  This is the engine's only mutator: the date moves by
    /// exactly the requested amount and each body's new state is the pure
    /// function of its elements and the new elapsed time.
    #[verifier::rlimit(100)]
    pub fn advance(&mut self, millidays: u64)
        requires
            spec_manager_wf(old(self)@),
            old(self)@.elapsed_millidays + millidays <= MAX_ELAPSED_MILLIDAYS,
        ensures
            spec_manager_wf(final(self)@),
            final(self)@ == spec_manager_advanced(old(self)@, millidays as int),
    {
        let new_elapsed: u64 = self.elapsed_millidays + millidays;
        let n: usize = self.bodies.len();
        let mut i: usize = 0;
        while i < n
            invariant
                n == self.bodies@.len() == old(self)@.bodies.len(),
                0 <= i <= n,
                self.epoch_day_number == old(self).epoch_day_number,
                self.elapsed_millidays == old(self).elapsed_millidays,
                new_elapsed == old(self)@.elapsed_millidays + millidays,
                new_elapsed <= MAX_ELAPSED_MILLIDAYS,
                spec_manager_wf(old(self)@),
                forall|j: int|
                    i <= j < n ==> #[trigger] self.bodies@[j]@ == old(self)@.bodies[j],
                forall|j: int|
                    0 <= j < i ==> #[trigger] self.bodies@[j]@ == spec_body_advanced(
                        old(self)@.bodies[j], new_elapsed as int),
                forall|j: int|
                    0 <= j < i ==> spec_body_wf(#[trigger] self.bodies@[j]@,
                        new_elapsed as int),
            decreases n - i,
        {
            proof {
                assert(self.bodies@[i as int]@ == old(self)@.bodies[i as int]);
                assert(spec_body_wf(old(self)@.bodies[i as int], old(self)@.elapsed_millidays));
            }
            let state: Option<OrbitalState> = match &self.bodies[i].orbital_state {
                Option::None => Option::None,
                Option::Some(st) => Option::Some(resolve_state(&st.parameters, new_elapsed)),
            };
            self.bodies[i].orbital_state = state;
            proof {
                assert(self.bodies@[i as int]@ =~= spec_body_advanced(
                    old(self)@.bodies[i as int], new_elapsed as int));
                assert(spec_body_wf(self.bodies@[i as int]@, new_elapsed as int));
            }
            i = i + 1;
        }
        self.elapsed_millidays = new_elapsed;
        proof {
            assert forall|j: int| 0 <= j < self@.bodies.len() implies spec_body_wf(
                #[trigger] self@.bodies[j], self@.elapsed_millidays) by {
                assert(self.bodies@[j]@ == self@.bodies[j]);
            }
            assert(self@.bodies =~= spec_manager_advanced(old(self)@, millidays as int).bodies);
            assert(self@ =~= spec_manager_advanced(old(self)@, millidays as int));
        }
    }

    /// Read-only registry access: the bodies in load order.
    pub fn all_bodies(&self) -> (r: &Vec<CelestialBody>)
        ensures
            r@ == self.bodies@,
    {
        &self.bodies
    }

    /// Looks a body up by its unique name; an unknown name yields an empty
    /// result rather than an error, since consumers routinely probe for
    /// optional bodies.
    pub fn body(&self, name: &[u8]) -> (r: Option<&CelestialBody>)
        ensures
            match r {
                Option::Some(b) => exists|i: int|
                    0 <= i < self@.bodies.len() && b@ == self@.bodies[i] && b@.name == name@,
                Option::None => forall|i: int|
                    0 <= i < self@.bodies.len() ==> (#[trigger] self@.bodies[i]).name != name@,
            },
    {
        let n: usize = self.bodies.len();
        let mut i: usize = 0;
        while i < n
            invariant
                0 <= i <= n,
                n == self.bodies@.len(),
                forall|j: int|
                    0 <= j < i ==> (#[trigger] self@.bodies[j]).name != name@,
            decreases n - i,
        {
            if bytes_eq(self.bodies[i].name.as_slice(), name) {
                let b: &CelestialBody = &self.bodies[i];
                proof {
                    assert(b@ == self@.bodies[i as int]);
                    assert(b@.name == name@);
                }
                return Option::Some(b);
            }
            i = i + 1;
        }
        Option::None
    }

    /// The day number of the current simulated date: the epoch plus every
    /// whole day of elapsed simulated time.
    pub fn current_day_number(&self) -> (r: u64)
        requires
            spec_manager_wf(self@),
        ensures
            r == self@.epoch_day_number + self@.elapsed_millidays / 1_000,
    {
        self.epoch_day_number + self.elapsed_millidays / 1_000
    }

    /// The current simulated calendar date.
    pub fn current_date(&self) -> (r: Date)
        requires
            spec_manager_wf(self@),
        ensures
            spec_date_valid(r),
            spec_day_number(r) == self@.epoch_day_number + self@.elapsed_millidays / 1_000,
    {
        let day: u64 = self.current_day_number();
        civil_from_days(day)
    }
}


/// How a registry entry realizes a parsed table row: same identity, and for
/// an orbiting row a valid parameter set carrying exactly the row's element
/// values, propagated to the given instant.
pub open spec fn spec_body_matches_row(b: BodyView, row: RowView, id: int, elapsed: int) -> bool {
    &&& b.name == row.name
    &&& b.id == id
    &&& b.region == row.region
    &&& match (b.orbital_state, row.orbit) {
        (Option::None, Option::None) => true,
        (Option::Some(st), Option::Some(el)) => {
            &&& st.parameters.semi_major_axis_mkm == el.semi_major_axis_mkm
            &&& st.parameters.eccentricity_nano == el.eccentricity_nano
            &&& st.parameters.arg_periapsis_nano == el.arg_periapsis_nano
            &&& st.parameters.mean_anomaly_epoch_nano == el.mean_anomaly_epoch_nano
            &&& st.parameters.period_millidays == el.period_millidays
            &&& spec_params_valid(st.parameters)
            &&& st == spec_state_at(st.parameters, elapsed)
        },
        _ => false,
    }
}

impl SolarSystemManager {
    /// Loads an orbital element table, replacing the registry.  On the
    /// first invalid row the whole load is rejected with an error naming the
    /// row and column, and the manager is left exactly as it was: a partial
    /// registry is never produced.  On success the registry holds one body
    /// per table row, in table order, each propagated to the current
    /// simulated time.
    pub fn load_from_csv(&mut self, source: &[u8]) -> (r: Result<(), LoadError>)
        requires
            spec_manager_wf(old(self)@),
        ensures
            spec_manager_wf(final(self)@),
            final(self)@.epoch_day_number == old(self)@.epoch_day_number,
            final(self)@.elapsed_millidays == old(self)@.elapsed_millidays,
            match r {
                Result::Ok(()) => match spec_load_table(source@) {
                    Result::Ok(rows) => final(self)@.bodies.len() == rows.len()
                        && forall|i: int|
                        0 <= i < rows.len() ==> spec_body_matches_row(
                            #[trigger] final(self)@.bodies[i], rows[i], i,
                            old(self)@.elapsed_millidays),
                    Result::Err(_) => false,
                },
                Result::Err(e) => spec_load_table(source@) == Result::Err::<
                    Seq<RowView>,
                    LoadError,
                >(e) && final(self)@ == old(self)@,
            },
    {
        let rows: Vec<ParsedRow> = match parse_table(source) {
            Result::Err(e) => {
                return Result::Err(e);
            },
            Result::Ok(rows) => rows,
        };
        let ghost rowsv = rows@.map_values(|p: ParsedRow| p@);
        let n: usize = rows.len();
        let mut bodies: Vec<CelestialBody> = Vec::new();
        let mut i: usize = 0;
        while i < n
            invariant
                0 <= i <= n,
                n == rows@.len(),
                rowsv == rows@.map_values(|p: ParsedRow| p@),
                bodies@.len() == i,
                spec_manager_wf(old(self)@),
                self == old(self),
                forall|k: int|
                    0 <= k < rows@.len() ==> (match (#[trigger] rows@[k]).orbit {
                        Option::Some(p) => spec_params_valid(p),
                        Option::None => true,
                    }),
                forall|k: int|
                    0 <= k < i ==> spec_body_matches_row(#[trigger] bodies@[k]@, rowsv[k], k,
                        old(self)@.elapsed_millidays),
                forall|k: int|
                    0 <= k < i ==> spec_body_wf(#[trigger] bodies@[k]@,
                        old(self)@.elapsed_millidays),
            decreases n - i,
        {
            let row: &ParsedRow = &rows[i];
            let name: Vec<u8> = slice_to_vec(row.name.as_slice());
            let region: Vec<u8> = slice_to_vec(row.region.as_slice());
            let orbital_state: Option<OrbitalState> = match &row.orbit {
                Option::None => Option::None,
                Option::Some(p) => Option::Some(resolve_state(p, self.elapsed_millidays)),
            };
            bodies.push(CelestialBody { name, id: i as u64, region, orbital_state });
            proof {
                assert(rowsv[i as int] == rows@[i as int]@);
                assert(spec_body_matches_row(bodies@[i as int]@, rowsv[i as int], i as int,
                    old(self)@.elapsed_millidays));
            }
            i = i + 1;
        }
        self.bodies = bodies;
        proof {
            let v = self@;
            assert forall|a: int| 0 <= a < v.bodies.len() implies (#[trigger] v.bodies[a]).id
                == a by {
                assert(v.bodies[a] == bodies@[a]@);
            }
            assert forall|a: int, b: int| 0 <= a < b < v.bodies.len() implies (
            #[trigger] v.bodies[a]).name != (#[trigger] v.bodies[b]).name by {
                assert(v.bodies[a] == bodies@[a]@ && v.bodies[b] == bodies@[b]@);
                assert(bodies@[a]@.name == rowsv[a].name && bodies@[b]@.name == rowsv[b].name);
                assert(rowsv[a].name != rowsv[b].name);
            }
            assert forall|a: int| 0 <= a < v.bodies.len() implies spec_body_wf(
                #[trigger] v.bodies[a], v.elapsed_millidays) by {
                assert(v.bodies[a] == bodies@[a]@);
            }
            assert forall|a: int| 0 <= a < v.bodies.len() implies spec_body_matches_row(
                #[trigger] v.bodies[a], rowsv[a], a, old(self)@.elapsed_millidays) by {
                assert(v.bodies[a] == bodies@[a]@);
            }
        }
        Result::Ok(())
    }
}

/// Builds a manager at the given epoch and loads the table into it: the
/// engine's one-call entry point.  The error cases are those of
/// [`SolarSystemManager::load_from_csv`].
pub fn load(source: &[u8], epoch: Date) -> (r: Result<SolarSystemManager, LoadError>)
    requires
        spec_date_valid(epoch),
        epoch.year <= 9_000,
    ensures
        match r {
            Result::Ok(m) => spec_manager_wf(m@) && m@.epoch_day_number == spec_day_number(
                epoch,
            ) && m@.elapsed_millidays == 0 && (match spec_load_table(source@) {
                Result::Ok(rows) => m@.bodies.len() == rows.len() && forall|i: int|
                    0 <= i < rows.len() ==> spec_body_matches_row(#[trigger] m@.bodies[i],
                        rows[i], i, 0),
                Result::Err(_) => false,
            }),
            Result::Err(e) => spec_load_table(source@) == Result::Err::<Seq<RowView>, LoadError>(
                e,
            ),
        },
{
    let mut m: SolarSystemManager = SolarSystemManager::new(epoch);
    match m.load_from_csv(source) {
        Result::Ok(()) => Result::Ok(m),
        Result::Err(e) => Result::Err(e),
    }
}

} // verus!
