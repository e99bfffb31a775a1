//! The two sources of chance: the process-wide random source for spawns and
//! rolls, and the seeded generator from which a map's noise seed is derived.

use vstd::prelude::*;
use rand::Rng;
use rand_pcg::Pcg64;
use rand_seeder::Seeder;
use crate::quantity::UNIT;

verus! {

/// The noise seed that belongs to a seed string: the first 32-bit value of
/// the `Pcg64` generator that `rand_seeder` seeds from the string.
pub uninterp spec fn seeded_noise_seed(seed: Seq<char>) -> u32;

/// `Rng::gen_range` of `rand`, on the generator of the current thread and the
/// half-open range from zero to `bound`: the value drawn lies in the range.
/// Which value it is depends on chance.
#[verifier::external_body]
pub(crate) fn random_below(bound: u128) -> (res: u128)
    requires
        bound > 0,
    ensures
        res < bound,
{
    rand::thread_rng().gen_range(0..bound)
}

/// `Seeder::from` and `Seeder::make_rng` of `rand_seeder`, followed by one
/// `Rng::gen` on the `Pcg64` made: the value depends on the seed string alone.
#[verifier::external_body]
pub(crate) fn first_of_seeded(seed: &str) -> (res: u32)
    ensures
        res == seeded_noise_seed(seed@),
{
    let mut rng: Pcg64 = Seeder::from(seed).make_rng();
    rng.gen()
}

/// A roll: a quantity drawn evenly from `[0, UNIT)`.
pub fn roll() -> (res: i64)
    ensures
        0 <= res < UNIT,
{
    random_below(UNIT as u128) as i64
}

/// The seed for the noise generator of a map, derived from the seed string
/// of the game.
pub fn noise_seed(seed: &str) -> (res: u32)
    ensures
        res == seeded_noise_seed(seed@),
{
    first_of_seeded(seed)
}

} // verus!
