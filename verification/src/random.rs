//! Random choice, behind a seam the contracts can speak about.

use vstd::prelude::*;
use vstd::slice::slice_index_get;

use rand::seq::SliceRandom;

verus! {

/// Relies on rand's `random_range` over `0..len`: a uniformly distributed
/// index. Only its bound is stated; no two calls need agree.
#[verifier::external_body]
pub fn random_index(len: usize) -> (r: usize)
    requires
        len > 0,
    ensures
        r < len,
{
    rand::random_range(0..len)
}

/// Relies on rand's `SliceRandom::shuffle`: a uniformly random permutation
/// of the elements in place. Stated: the multiset of elements is unchanged.
#[verifier::external_body]
pub fn shuffle<T>(v: &mut Vec<T>)
    ensures
        final(v)@.to_multiset() == old(v)@.to_multiset(),
{
    v.shuffle(&mut rand::rng());
}

/// Choose a random element from `choices`.
pub fn choice<'a, T>(choices: &'a [T]) -> (r: &'a T)
    requires
        choices@.len() > 0,
    ensures
        exists|i: int| 0 <= i < choices@.len() && *r == choices@[i],
{
    let i = random_index(choices.len());
    let r = slice_index_get(choices, i);
    proof {
        assert(*r == choices@[i as int]);
    }
    r
}

} // verus!
