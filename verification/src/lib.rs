//! Round engine of a category-guessing word game: a letter die, a deck of
//! category cards, a countdown, and the state machine of one round.

pub mod cards;
pub mod collections;
pub mod dice;
pub mod error;
pub mod random;
pub mod round;
pub mod session;
pub mod text;
pub mod timer;
