//! Structure classifiers for the wider game: what an installation is for,
//! and what a spacecraft module does.  The engine itself does not read
//! them; they are the vocabulary its consumers group structures by.

use vstd::prelude::*;

verus! {

/// What an installation exists to do.
#[derive(Clone, Copy, Debug, PartialEq, Eq, Hash)]
pub enum InstallationPurpose {
    Mine,
    Refinery,
    Factory,
    Military,
    Research,
}

/// The function of one spacecraft module.
#[derive(Clone, Copy, Debug, PartialEq, Eq, Hash)]
pub enum SpacecraftModuleType {
    Mine,
    Refinery,
    Factory,
    Laboratory,
    Military,
    Administrative,
}

} // verus!
