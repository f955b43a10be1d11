//! The one source of chance: uniform picks from a slice, by the `rand` crate.

use rand::seq::SliceRandom;
use vstd::prelude::*;

verus! {

/// The thread-local generator of `rand`; nothing is known of its state.
#[verifier::external_type_specification]
#[verifier::external_body]
pub struct ExThreadRng(rand::rngs::ThreadRng);

/// `rand::thread_rng`: hands out the calling thread's generator, which the
/// system seeds on first use (and the call panics where the system has no
/// entropy to give). Nothing is claimed of the value.
pub assume_specification[ rand::thread_rng ]() -> rand::rngs::ThreadRng;

/// `SliceRandom::choose` on a slice: `None` for an empty slice, else a
/// reference to the element at some index of it. Which index is left open:
/// it is the generator's choice, uniform over the slice.
#[verifier::external_body]
pub(crate) fn pick<'a, T>(items: &'a [T], rng: &mut rand::rngs::ThreadRng) -> (picked: Option<&'a T>)
    ensures
        picked is None <==> items@.len() == 0,
        picked is Some ==> items@.contains(*picked->0),
{
    items.choose(rng)
}

} // verus!
