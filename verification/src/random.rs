//! The random choices of the generator, made by the `rand` crate.
//!
//! What comes out of these calls depends on chance, so their contracts say
//! only what holds of every outcome.
use vstd::prelude::*;

use rand::rngs::ThreadRng;
use rand::seq::{IndexedRandom, SliceRandom};

verus! {

/// The thread-local generator of `rand`.
#[verifier::external_type_specification]
#[verifier::external_body]
pub struct ExThreadRng(rand::rngs::ThreadRng);

/// Calls `rand::rng`, the handle to the thread-local generator. Nothing is
/// promised of it; `rand` panics if the operating system gives no seed.
#[verifier::external_body]
pub(crate) fn thread_rng() -> ThreadRng {
    rand::rng()
}

/// Calls `SliceRandom::shuffle` on the vector's slice: the result is a
/// permutation of the old contents. Which permutation is left unsaid: it is
/// chosen at random.
#[verifier::external_body]
pub(crate) fn shuffle<T>(v: &mut Vec<T>, rng: &mut ThreadRng)
    ensures
        final(v)@.to_multiset() == old(v)@.to_multiset(),
{
    v.as_mut_slice().shuffle(rng)
}

/// Calls `IndexedRandom::choose` on the vector's slice: `None` exactly when
/// the vector is empty, and otherwise one of its items. Which one is left
/// unsaid: it is chosen at random.
#[verifier::external_body]
pub(crate) fn pick<'a, T>(v: &'a Vec<T>, rng: &mut ThreadRng) -> (r: Option<&'a T>)
    ensures
        r is None <==> v@.len() == 0,
        r matches Some(x) ==> v@.contains(*x),
{
    v.as_slice().choose(rng)
}

} // verus!
