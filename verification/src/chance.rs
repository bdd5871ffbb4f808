//! Random draws.

use rand::{Rng, SeedableRng};
use vstd::prelude::*;

verus! {

#[verifier::external_type_specification]
#[verifier::external_body]
pub struct ExSmallRng(rand::rngs::SmallRng);

/// The generator made out of a seed, by the algorithm that is in use for the
/// platform's word size.
pub uninterp spec fn generator_of(seed: u64) -> rand::rngs::SmallRng;

/// The number of 64 bits that a generator draws next. The generator's state
/// alone decides it.
pub uninterp spec fn next_seed(rng: rand::rngs::SmallRng) -> u64;

/// A generator after it has drawn a number of 64 bits.
pub uninterp spec fn after_seed(rng: rand::rngs::SmallRng) -> rand::rngs::SmallRng;

/// The number below a bound that a generator draws next. The generator's state
/// and the bound alone decide it.
pub uninterp spec fn next_below(rng: rand::rngs::SmallRng, bound: usize) -> usize;

/// A generator after it has drawn a number below a bound.
pub uninterp spec fn after_below(rng: rand::rngs::SmallRng, bound: usize) -> rand::rngs::SmallRng;

/// Calls `rand::rngs::SmallRng::seed_from_u64`, which makes a generator out of
/// the given seed and nothing else.
#[verifier::external_body]
pub(crate) fn seeded_rng(seed: u64) -> (rng: rand::rngs::SmallRng)
    ensures
        rng == generator_of(seed),
{
    rand::rngs::SmallRng::seed_from_u64(seed)
}

/// Calls `rand::Rng::gen` for a number of 64 bits. The number, and the
/// generator afterwards, depend on the generator alone.
#[verifier::external_body]
pub(crate) fn draw_seed(rng: &mut rand::rngs::SmallRng) -> (seed: u64)
    ensures
        seed == next_seed(*old(rng)),
        *final(rng) == after_seed(*old(rng)),
{
    rng.gen()
}

/// Calls `rand::Rng::gen_range` for a number below `bound`. The number, and the
/// generator afterwards, depend on the generator and the bound alone.
#[verifier::external_body]
pub(crate) fn draw_below(rng: &mut rand::rngs::SmallRng, bound: usize) -> (drawn: usize)
    requires
        bound > 0,
    ensures
        drawn < bound,
        drawn == next_below(*old(rng), bound),
        *final(rng) == after_below(*old(rng), bound),
{
    rng.gen_range(0..bound)
}

/// One draw from a generator.
pub enum Draw {
    /// A number of 64 bits.
    Seed,
    /// A number below a bound.
    Below { bound: usize },
}

/// A generator after some draws.
pub open spec fn after_draws(rng: rand::rngs::SmallRng, draws: Seq<Draw>) -> rand::rngs::SmallRng
    decreases draws.len(),
{
    if draws.len() == 0 {
        rng
    } else {
        let before = after_draws(rng, draws.drop_last());
        match draws.last() {
            Draw::Seed => after_seed(before),
            Draw::Below { bound } => after_below(before, bound),
        }
    }
}

} // verus!
