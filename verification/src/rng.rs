//! The game's source of randomness: a seeded ChaCha generator and weighted
//! index sampling, both from the rand crates, behind trusted declarations.
//! Nothing is assumed of the drawn values beyond what the rand sources show;
//! every rule that consumes a draw is verified for all possible outcomes.

use vstd::prelude::*;

verus! {

/// Declares rand_chacha's `ChaCha20Rng` so generator state can flow
/// through verified signatures; its value stays opaque.
#[verifier::external_type_specification]
#[verifier::external_body]
pub struct ExChaCha20Rng(rand_chacha::ChaCha20Rng);

/// A weighted discrete distribution over `u32` weights. Verus refuses the
/// declaration of `WeightedIndex` itself (its generic bound names a rand
/// trait), so the distribution is held opaquely in this struct; its contents
/// are reached through `weights_of` alone.
#[verifier::external_body]
pub struct WeightedIndexU32 {
    inner: rand::distributions::WeightedIndex<u32>,
}

/// The list of weights a `WeightedIndexU32` was built from.
pub uninterp spec fn weights_of(d: WeightedIndexU32) -> Seq<u32>;

/// Sum of a list of weights.
pub open spec fn spec_weights_sum(s: Seq<u32>) -> int
    decreases s.len(),
{
    if s.len() == 0 {
        0
    } else {
        spec_weights_sum(s.drop_last()) + s.last()
    }
}

/// Relies on `RngCore::next_u64` for `ChaCha20Rng`: draws 64 bits; nothing
/// can be promised of a random value.
#[verifier::external_body]
pub(crate) fn rng_next_u64(rng: &mut rand_chacha::ChaCha20Rng) -> (r: u64) {
    rand::RngCore::next_u64(rng)
}

/// Relies on rand's `WeightedIndex::new`: for `u32` weights it fails only on
/// an empty list or an all-zero sum, and the sum must not overflow `u32`
/// (its running total uses unchecked `u32` addition); the distribution holds
/// exactly the given weights.
#[verifier::external_body]
pub(crate) fn weighted_index_new(weights: &Vec<u32>) -> (d: WeightedIndexU32)
    requires
        weights@.len() > 0,
        0 < spec_weights_sum(weights@) <= u32::MAX,
    ensures
        weights_of(d) == weights@,
{
    WeightedIndexU32 { inner: rand::distributions::WeightedIndex::new(weights).unwrap() }
}

/// Relies on rand's `Distribution::sample` for `WeightedIndex`: the sampled
/// value is the index of one of the weights, picked with probability
/// proportional to it, so an index whose weight is zero is never returned.
#[verifier::external_body]
pub(crate) fn weighted_index_sample(
    d: &WeightedIndexU32,
    rng: &mut rand_chacha::ChaCha20Rng,
) -> (i: usize)
    ensures
        i < weights_of(*d).len(),
        weights_of(*d)[i as int] > 0,
{
    rand::distributions::Distribution::sample(&d.inner, rng)
}

} // verus!
