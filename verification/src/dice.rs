//! The letter die.

use crate::random::pick;
use vstd::prelude::*;

verus! {

/// The face that lets the player choose any letter.
pub const WILDCARD: char = '*';

/// The thirty faces of the die. `X` and `Y` are missing; `A`, `E`, `O`, `S`
/// and the wildcard appear twice.
pub open spec fn dice_faces() -> Seq<char> {
    seq![
        'A', 'A', 'B', 'C', 'D', 'E', 'E', 'F', 'G', 'H',
        'I', 'J', 'K', 'L', 'M', 'N', 'O', 'O', 'P', 'Q',
        'R', 'S', 'S', 'T', 'U', 'V', 'W', 'Z', '*', '*',
    ]
}

/// The faces as an array to pick from.
pub fn faces() -> (dice: [char; 30])
    ensures
        dice@ == dice_faces(),
{
    let dice: [char; 30] = [
        'A', 'A', 'B', 'C', 'D', 'E', 'E', 'F', 'G', 'H',
        'I', 'J', 'K', 'L', 'M', 'N', 'O', 'O', 'P', 'Q',
        'R', 'S', 'S', 'T', 'U', 'V', 'W', 'Z', WILDCARD, WILDCARD,
    ];
    dice
}

/// Rolls the die once: the result is one of its thirty faces.
pub fn roll_dice() -> (letter: char)
    ensures
        dice_faces().contains(letter),
{
    let dice = faces();
    let mut rng = rand::thread_rng();
    match pick(dice.as_slice(), &mut rng) {
        Some(face) => *face,
        None => vstd::pervasive::unreached(),
    }
}

} // verus!
