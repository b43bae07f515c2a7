//! The turn-based shell around the engine: one simulation owning the solar
//! system manager, and the game state that drives it.
//!
//! A turn advances simulated time by a fixed thirty days.  The engine is
//! agnostic to what a turn means; this module is where that policy lives.

use vstd::prelude::*;

verus! {

use crate::calendar::{format_date, spec_day_number, spec_format_date, Date};
use crate::loader::LoadError;
use crate::system::{spec_body_matches_row, spec_manager_advanced, spec_manager_wf,
    SolarSystemManager, MAX_ELAPSED_MILLIDAYS};

/// Simulated days in one turn, in milli-days.
pub const TURN_LENGTH_MILLIDAYS: u64 = 30_000;

/// The core simulation: the solar system plus the count of processed turns.
pub struct Simulation {
    /// The orbital propagation engine and its calendar.
    pub solar_system: SolarSystemManager,
    /// Turns processed so far.
    pub turn: u64,
}

/// A simulation is well formed when its solar system is.
pub open spec fn spec_simulation_wf(s: Simulation) -> bool {
    spec_manager_wf(s.solar_system@)
}

impl Simulation {
    /// A fresh simulation with an empty registry, starting on the first of
    /// January 2070.
    pub fn new() -> (s: Simulation)
        ensures
            spec_simulation_wf(s),
            s.solar_system@.bodies.len() == 0,
            s.solar_system@.epoch_day_number == spec_day_number(
                (Date { year: 2070, month: 1, day: 1 }),
            ),
            s.solar_system@.elapsed_millidays == 0,
            s.turn == 0,
    {
        let epoch: Date = Date { year: 2070, month: 1, day: 1 };
        Simulation { solar_system: SolarSystemManager::new(epoch), turn: 0 }
    }

    /// Processes one turn: advances the solar system by the fixed turn
    /// length and counts the turn.
    pub fn process_turn(&mut self)
        requires
            spec_simulation_wf(*old(self)),
            old(self).solar_system@.elapsed_millidays + TURN_LENGTH_MILLIDAYS
                <= MAX_ELAPSED_MILLIDAYS,
            old(self).turn < u64::MAX,
        ensures
            spec_simulation_wf(*final(self)),
            final(self).solar_system@ == spec_manager_advanced(old(self).solar_system@,
                TURN_LENGTH_MILLIDAYS as int),
            final(self).turn == old(self).turn + 1,
    {
        self.solar_system.advance(TURN_LENGTH_MILLIDAYS);
        self.turn = self.turn + 1;
    }
}

/// The whole game's state; today that is the simulation alone.
pub struct GameState {
    /// The core simulation.
    pub simulation: Simulation,
}

impl GameState {
    /// Creates a new game state with a fresh simulation.
    pub fn new() -> (g: GameState)
        ensures
            spec_simulation_wf(g.simulation),
            g.simulation.solar_system@.bodies.len() == 0,
            g.simulation.solar_system@.epoch_day_number == spec_day_number(
                (Date { year: 2070, month: 1, day: 1 }),
            ),
            g.simulation.solar_system@.elapsed_millidays == 0,
            g.simulation.turn == 0,
    {
        GameState { simulation: Simulation::new() }
    }

    /// Loads the solar system table into the simulation; see
    /// [`SolarSystemManager::load_from_csv`] for the exact contract.
    pub fn load_solar_system_data(&mut self, source: &[u8]) -> (r: Result<(), LoadError>)
        requires
            spec_simulation_wf(old(self).simulation),
        ensures
            spec_simulation_wf(final(self).simulation),
            r is Ok ==> (match crate::loader::spec_load_table(source@) {
                Result::Ok(rows) => final(self).simulation.solar_system@.bodies.len()
                    == rows.len() && forall|i: int|
                    0 <= i < rows.len() ==> spec_body_matches_row(
                        #[trigger] final(self).simulation.solar_system@.bodies[i], rows[i], i,
                        old(self).simulation.solar_system@.elapsed_millidays),
                Result::Err(_) => false,
            }),
            r matches Err(e) ==> crate::loader::spec_load_table(source@) == Result::Err::<
                Seq<crate::loader::RowView>,
                LoadError,
            >(e) && final(self).simulation.solar_system@
                == old(self).simulation.solar_system@,
            final(self).simulation.turn == old(self).simulation.turn,
            final(self).simulation.solar_system@.epoch_day_number
                == old(self).simulation.solar_system@.epoch_day_number,
            final(self).simulation.solar_system@.elapsed_millidays
                == old(self).simulation.solar_system@.elapsed_millidays,
    {
        self.simulation.solar_system.load_from_csv(source)
    }

    /// Advances the game state by processing one simulation turn.
    pub fn process_turn(&mut self)
        requires
            spec_simulation_wf(old(self).simulation),
            old(self).simulation.solar_system@.elapsed_millidays + TURN_LENGTH_MILLIDAYS
                <= MAX_ELAPSED_MILLIDAYS,
            old(self).simulation.turn < u64::MAX,
        ensures
            spec_simulation_wf(final(self).simulation),
            final(self).simulation.solar_system@ == spec_manager_advanced(
                old(self).simulation.solar_system@, TURN_LENGTH_MILLIDAYS as int),
            final(self).simulation.turn == old(self).simulation.turn + 1,
    {
        self.simulation.process_turn();
    }

    /// The current simulated date as `YYYY-MM-DD`.
    pub fn get_formatted_date(&self) -> (r: String)
        requires
            spec_simulation_wf(self.simulation),
        ensures
            exists|d: Date|
                crate::calendar::spec_date_valid(d) && crate::calendar::spec_day_number(d)
                    == self.simulation.solar_system@.epoch_day_number
                    + self.simulation.solar_system@.elapsed_millidays / 1_000 && r@
                    == spec_format_date(d),
    {
        let d: Date = self.simulation.solar_system.current_date();
        let r: String = format_date(&d);
        proof {
            assert(crate::calendar::spec_date_valid(d) && crate::calendar::spec_day_number(d)
                == self.simulation.solar_system@.epoch_day_number
                + self.simulation.solar_system@.elapsed_millidays / 1_000 && r@
                == spec_format_date(d));
        }
        r
    }
}

impl Default for GameState {
    /// Same as [`GameState::new`].
    fn default() -> (g: GameState)
        ensures
            spec_simulation_wf(g.simulation),
            g.simulation.solar_system@.bodies.len() == 0,
            g.simulation.solar_system@.epoch_day_number == spec_day_number(
                (Date { year: 2070, month: 1, day: 1 }),
            ),
            g.simulation.solar_system@.elapsed_millidays == 0,
            g.simulation.turn == 0,
    {
        GameState::new()
    }
}

} // verus!
