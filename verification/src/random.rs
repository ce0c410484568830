//! The calls into the `rand` crate. Their contracts are taken on trust.

use crate::colors::Color;
use crate::player_move::Move;
use rand::rngs::StdRng;
use rand::seq::{IndexedRandom, SliceRandom};
use rand::Rng;
use vstd::prelude::*;

verus! {

/// The seedable generator of the `rand` crate, carried through as it is.
#[verifier::external_type_specification]
#[verifier::external_body]
pub struct ExStdRng(StdRng);

/// `rand::seq::SliceRandom::shuffle` on the tiles of a pile. It swaps
/// elements of the slice among themselves, so the pile afterwards holds the
/// same tiles as before, in an order that depends on the generator.
#[verifier::external_body]
pub(crate) fn shuffle_tiles(tiles: &mut Vec<Color>, rng: &mut StdRng)
    ensures
        final(tiles)@.to_multiset() == old(tiles)@.to_multiset(),
{
    tiles.shuffle(rng);
}

/// `rand::Rng::random_range` on `0..bound`. It panics on an empty range and
/// otherwise returns a number of the range, which one depends on the
/// generator.
#[verifier::external_body]
pub(crate) fn random_index(rng: &mut StdRng, bound: usize) -> (i: usize)
    requires
        bound > 0,
    ensures
        i < bound,
{
    rng.random_range(0..bound)
}

/// `rand::seq::IndexedRandom::choose` with the generator of the current
/// thread, `rand::rng`. It returns nothing for an empty slice and otherwise
/// an element of the slice, whose position depends on the generator.
#[verifier::external_body]
pub(crate) fn choose_move(moves: &Vec<Move>) -> (picked: Option<Move>)
    ensures
        moves@.len() == 0 ==> picked is None,
        moves@.len() > 0 ==> picked is Some && moves@.contains(picked.unwrap()),
{
    moves.choose(&mut rand::rng()).copied()
}

} // verus!
