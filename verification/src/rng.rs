//! The pseudo-random source of the heuristic players: a ChaCha8 generator
//! seeded from a `u64`, and the few draws the players make from it.
use vstd::prelude::*;
use rand::seq::SliceRandom;
use rand::Rng;
use rand::SeedableRng;
use rand_chacha::ChaCha8Rng;

verus! {

#[verifier::external_type_specification]
#[verifier::external_body]
pub struct ExChaCha8Rng(ChaCha8Rng);

/// The generator that `ChaCha8Rng::seed_from_u64` makes from a seed.
pub uninterp spec fn seeded_generator(seed: u64) -> ChaCha8Rng;

/// `ChaCha8Rng::seed_from_u64` (rand_core): expands the seed with PCG32 into
/// the generator's key, so the generator is a function of the seed alone,
/// the same on every run and machine (rand_core documents this as portable).
/// The result is named, not spelled out; nothing about its stream is stated.
#[verifier::external_body]
pub(crate) fn seeded_rng(seed: u64) -> (r: ChaCha8Rng)
    ensures
        r == seeded_generator(seed),
{
    ChaCha8Rng::seed_from_u64(seed)
}

/// `SliceRandom::choose` (rand): `None` for an empty slice, otherwise one of
/// its elements; which one is left open.
#[verifier::external_body]
pub(crate) fn choose_one<T: Copy>(items: &[T], rng: &mut ChaCha8Rng) -> (r: Option<T>)
    ensures
        r is None <==> items@.len() == 0,
        r matches Some(x) ==> items@.contains(x),
{
    items.choose(rng).copied()
}

/// `SliceRandom::shuffle` (rand): permutes the vector in place; the order it
/// leaves is left open, the elements and their number are kept.
#[verifier::external_body]
pub(crate) fn shuffle<T>(items: &mut Vec<T>, rng: &mut ChaCha8Rng)
    ensures
        final(items)@.len() == old(items)@.len(),
        final(items)@.to_multiset() == old(items)@.to_multiset(),
{
    items.shuffle(rng)
}

/// `Rng::gen_ratio` (rand): `true` with probability `numerator / denominator`;
/// always `true` when they are equal and always `false` for a zero numerator.
/// It panics when the denominator is zero or smaller than the numerator.
#[verifier::external_body]
pub(crate) fn gen_ratio(rng: &mut ChaCha8Rng, numerator: u32, denominator: u32) -> (r: bool)
    requires
        0 < denominator,
        numerator <= denominator,
    ensures
        numerator == denominator ==> r,
        numerator == 0 ==> !r,
{
    rng.gen_ratio(numerator, denominator)
}

/// `Rng::gen_range` (rand) on `low..high`: a value in that half-open range. It
/// panics on an empty range.
#[verifier::external_body]
pub(crate) fn gen_range_i32(rng: &mut ChaCha8Rng, low: i32, high: i32) -> (r: i32)
    requires
        low < high,
    ensures
        low <= r < high,
{
    rng.gen_range(low..high)
}

} // verus!
