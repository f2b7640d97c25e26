//! The random choices that the renderer's structures are built with.

use rand::seq::SliceRandom;
use rand::Rng;
use vstd::prelude::*;

verus! {

/// Draws an axis number with `rand::Rng::gen_range(0..3)` on the thread's
/// generator. Trusted: the result is one of 0, 1, 2, as `gen_range` samples
/// from the half-open range it is given.
#[verifier::external_body]
pub(crate) fn random_axis() -> (axis: usize)
    ensures
        axis < 3,
{
    rand::thread_rng().gen_range(0..3)
}

/// Shuffles the vector with `rand::seq::SliceRandom::shuffle` on the thread's
/// generator. Trusted: `shuffle` only swaps elements of the slice, so the
/// vector holds the same values as often as before.
#[verifier::external_body]
pub(crate) fn shuffle(points: &mut Vec<usize>)
    ensures
        final(points)@.to_multiset() == old(points)@.to_multiset(),
        final(points)@.len() == old(points)@.len(),
{
    points.shuffle(&mut rand::thread_rng());
}

} // verus!
