//! The failures that the engine reports.

use vstd::prelude::*;

verus! {

/// Every failure is returned to the caller and leaves the state it was asked
/// to change as it was.
#[derive(Clone, Copy, Debug, PartialEq, Eq, Structural)]
pub enum GameError {
    /// A collection was asked for by a name that is none of the presets.
    UnknownCollectionName,
    /// A card was to be drawn from a collection without entries.
    EmptyCollection,
    /// A card was to hold more categories than the collection can give.
    InsufficientCategories,
    /// An outcome was reported while no card was in play.
    ProgressionWithoutActiveRound,
    /// A success was reported for a category other than the current one.
    OutcomeCategoryMismatch,
}

} // verus!
