//! The random draws of the game, taken from the thread-local generator of the
//! `rand` crate.
//!
//! Nothing here is proved: each function hands one call to `rand` and states
//! what the crate documents of the result. A draw depends on the generator's
//! state, so each contract holds of every outcome and fixes none.

use vstd::prelude::*;
use rand::rngs::ThreadRng;
use rand::seq::IteratorRandom;
use rand::Rng;

verus! {

/// The thread-local generator of `rand`. Its state is opaque.
#[verifier::external_type_specification]
#[verifier::external_body]
pub struct ExThreadRng(ThreadRng);

/// `rand::rng`: a handle to the thread-local generator.
pub assume_specification[ rand::rng ]() -> ThreadRng;

/// `Rng::random_range` on an inclusive range of `i64`: a value of the range.
/// The call panics on an empty range, which `requires` leaves out.
#[verifier::external_body]
pub(crate) fn random_range(rng: &mut ThreadRng, low: i64, high: i64) -> (r: i64)
    requires
        low <= high,
    ensures
        low <= r <= high,
{
    rng.random_range(low..=high)
}

/// `Rng::random_ratio` with one chance in two: a fair coin. Nothing is known
/// of the side it shows.
#[verifier::external_body]
pub(crate) fn random_coin(rng: &mut ThreadRng) -> (r: bool)
{
    rng.random_ratio(1, 2)
}

/// `IteratorRandom::choose` on the indices below `len`: one of them, and
/// `None` only where there is none.
#[verifier::external_body]
pub(crate) fn choose_index(rng: &mut ThreadRng, len: usize) -> (r: Option<usize>)
    ensures
        len == 0 ==> r is None,
        len > 0 ==> r is Some && r->0 < len,
{
    (0..len).choose(rng)
}

/// `IteratorRandom::choose_multiple` on the items of `items`: `amount` of
/// them, or all where there are fewer, each taken from a place of its own.
#[verifier::external_body]
pub(crate) fn choose_multiple(rng: &mut ThreadRng, items: Vec<usize>, amount: usize) -> (r: Vec<usize>)
    ensures
        r@.len() == if amount <= items@.len() { amount as int } else { items@.len() as int },
        forall|i: int| 0 <= i < r@.len() ==> items@.contains(#[trigger] r@[i]),
        items@.no_duplicates() ==> r@.no_duplicates(),
{
    items.into_iter().choose_multiple(rng, amount)
}

} // verus!
