//! The random source. Chance enters the game in two places, the seeding of
//! pellets and the ghost's turns, and both draw from a generator that the
//! caller owns, so a seeded generator replays a game.

use vstd::prelude::*;
use rand::rngs::StdRng;
use rand::Rng;

verus! {

/// The generator of the `rand` crate, `rand::rngs::StdRng`. Nothing is known
/// of its state; it is only handed on to the two draws below.
#[verifier::external_type_specification]
#[verifier::external_body]
pub struct ExStdRng(rand::rngs::StdRng);

/// Draws an index below `bound` with `rand::Rng::gen_range` on `0..bound`.
///
/// Of the result only its range is claimed. `gen_range` panics on an empty
/// range, which `bound > 0` rules out.
#[verifier::external_body]
pub(crate) fn random_below(rng: &mut StdRng, bound: usize) -> (index: usize)
    requires
        bound > 0,
    ensures
        index < bound,
{
    rng.gen_range(0..bound)
}

/// Draws `true` with a chance of `numerator` in `denominator`, by
/// `rand::Rng::gen_ratio`.
///
/// Claimed of the result is what `gen_ratio` documents: a ratio of one always
/// gives `true`, a ratio of zero always `false`. `gen_ratio` panics on a zero
/// denominator and on a numerator above the denominator.
#[verifier::external_body]
pub(crate) fn random_ratio(rng: &mut StdRng, numerator: u32, denominator: u32) -> (hit: bool)
    requires
        0 < denominator,
        numerator <= denominator,
    ensures
        numerator == denominator ==> hit,
        numerator == 0 ==> !hit,
{
    rng.gen_ratio(numerator, denominator)
}

} // verus!
