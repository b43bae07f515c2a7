//! Orbital propagation engine for a turn-based space game.
//!
//! The engine loads a table of Keplerian orbital elements, keeps a registry of
//! celestial bodies together with a simulated calendar date, and advances the
//! whole system by a requested number of days: for every orbiting body it
//! normalizes the mean anomaly, solves Kepler's equation by Newton-Raphson
//! iteration, and converts the resulting eccentric anomaly into planar
//! Cartesian coordinates and a polar display angle.
//!
//! All quantities are held in fixed-point integers so that every step of the
//! computation can be specified and verified exactly:
//! angles in nano-radians, distances in milli-kilometres (metres), and
//! simulated time in milli-days.

pub mod buildings;
pub mod calendar;
pub mod game;
pub mod laws;
pub mod loader;
pub mod num;
pub mod orbit;
pub mod resources;
pub mod structures;
pub mod system;
pub mod trig;
pub mod kepler;
