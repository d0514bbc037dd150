//! The library's only source of randomness: a seedable generator owned by
//! the caller, and an in-place shuffle used by the random-swap transform.

use vstd::prelude::*;

verus! {

/// The pseudo-random generator driving the shuffle. Declared so that it can
/// stand in signatures and fields; the library never looks inside it.
#[verifier::external_type_specification]
#[verifier::external_body]
pub struct ExStdRng(rand::rngs::StdRng);

/// Relies on rand's `SeedableRng::seed_from_u64`: builds a generator whose
/// sequence is a function of the seed alone, so transform outcomes are
/// reproducible.
#[verifier::external_body]
pub(crate) fn rng_from_seed(seed: u64) -> (rng: rand::rngs::StdRng) {
    <rand::rngs::StdRng as rand::SeedableRng>::seed_from_u64(seed)
}

/// Relies on rand's `SliceRandom::shuffle`: a Fisher-Yates pass that swaps
/// elements in place, so the result holds exactly the old elements, only
/// reordered.
#[verifier::external_body]
pub(crate) fn shuffle_keys(rng: &mut rand::rngs::StdRng, keys: &mut Vec<usize>)
    ensures
        final(keys)@.to_multiset() == old(keys)@.to_multiset(),
        final(keys)@.len() == old(keys)@.len(),
{
    rand::seq::SliceRandom::shuffle(keys.as_mut_slice(), rng);
}

} // verus!
