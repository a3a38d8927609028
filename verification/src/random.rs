use rand::rngs::ThreadRng;
use rand::seq::SliceRandom;
use rand::RngCore;
use vstd::prelude::*;

verus! {

/// rand's thread-local generator, carried through opaquely.
#[verifier::external_type_specification]
#[verifier::external_body]
pub struct ExThreadRng(ThreadRng);

/// `rand::thread_rng()`: a handle on this thread's random generator.
/// Nothing is promised of the generator's state.
#[verifier::external_body]
pub(crate) fn thread_rng() -> ThreadRng {
    rand::thread_rng()
}

/// rand's `SliceRandom::shuffle` on a vector: the elements are permuted in
/// place (a Fisher-Yates pass of swaps), so the multiset of elements stays the
/// same. Which permutation comes out depends on the generator and is not stated.
#[verifier::external_body]
pub(crate) fn shuffle<T>(v: &mut Vec<T>, rng: &mut ThreadRng)
    ensures
        final(v)@.to_multiset() == old(v)@.to_multiset(),
{
    v.shuffle(rng);
}

/// rand's `RngCore::next_u32`: a random `u32`. Any value may come back.
#[verifier::external_body]
pub(crate) fn next_u32(rng: &mut ThreadRng) -> u32 {
    rng.next_u32()
}

} // verus!
