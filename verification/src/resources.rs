//! Resource kinds moved and transformed by the wider game; the engine does
//! not interpret them.

use vstd::prelude::*;

verus! {

/// Extracted, refined and future intermediate resource kinds.
#[derive(Clone, Copy, Debug, PartialEq, Eq, Hash)]
pub enum ResourceType {
    Ice,
    Minerals,
    Gases,
    Hydrocarbons,
    Organics,
    Water,
    Air,
    Metal,
    NonMetal,
    Energy,
    Food,
    BioMatter,
    Waste,
}

} // verus!
