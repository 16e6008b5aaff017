//! The pseudorandom source of the opponents that play by chance.
//!
//! The generator is `rand`'s `StdRng`. Nothing is proved of the numbers it
//! hands out: the contracts below state only what holds of every draw.

use vstd::prelude::*;
use rand::rngs::{OsRng, StdRng};
use rand::seq::SliceRandom;
use rand::{Rng, SeedableRng};

verus! {

#[verifier::external_type_specification]
#[verifier::external_body]
pub struct ExStdRng(rand::rngs::StdRng);

/// `SliceRandom::shuffle` on the moves: it reorders them by swapping, so the
/// same moves are there afterwards, each as often as before.
#[verifier::external_body]
pub(crate) fn shuffle(moves: &mut Vec<usize>, rng: &mut StdRng)
    ensures
        final(moves)@.to_multiset() == old(moves)@.to_multiset(),
{
    moves.shuffle(rng);
}

/// `Rng::gen` for a `usize`: any number may come back.
#[verifier::external_body]
pub(crate) fn next_usize(rng: &mut StdRng) -> (drawn: usize) {
    rng.gen::<usize>()
}

/// `Rng::gen_ratio`: true with a chance of `numerator` in `denominator`;
/// certainly true where the two are equal and certainly false where the
/// numerator is 0.
#[verifier::external_body]
pub(crate) fn next_ratio(rng: &mut StdRng, numerator: u32, denominator: u32) -> (hit: bool)
    requires
        denominator > 0,
        numerator <= denominator,
    ensures
        numerator == denominator ==> hit,
        numerator == 0 ==> !hit,
{
    rng.gen_ratio(numerator, denominator)
}

/// `SeedableRng::from_rng` on `OsRng`: a generator seeded by the operating
/// system, or nothing where the operating system gives no entropy.
#[verifier::external_body]
pub(crate) fn try_fresh_rng() -> (rng: Option<StdRng>) {
    StdRng::from_rng(OsRng).ok()
}

/// `SeedableRng::seed_from_u64`: the generator that the seed stands for.
#[verifier::external_body]
pub(crate) fn seeded_rng(seed: u64) -> (rng: StdRng) {
    StdRng::seed_from_u64(seed)
}

} // verus!
