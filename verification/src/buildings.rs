//! Building kinds available to settlements; consumers of the engine group
//! production around these.

use vstd::prelude::*;

verus! {

/// The kinds of buildings a settlement can hold.
#[derive(Clone, Copy, Debug, PartialEq, Eq, Hash)]
pub enum BuildingType {
    Mine,
    Refinery,
    Factory,
    Laboratory,
}

} // verus!
