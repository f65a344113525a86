//! Randomized reordering, kept behind one trusted wrapper.

use vstd::prelude::*;
use rand::seq::SliceRandom;

verus! {

/// Relies on `rand`'s `SliceRandom::shuffle` with `thread_rng`: it permutes
/// the elements of the slice in place, so the multiset of elements is
/// unchanged. Nothing more is promised of the random order.
#[verifier::external_body]
pub(crate) fn shuffle<T>(v: &mut Vec<T>)
    ensures
        final(v)@.to_multiset() == old(v)@.to_multiset(),
{
    v.shuffle(&mut rand::thread_rng());
}

} // verus!
