//! Random values and random rearrangements, drawn from fastrand's generator.
use crate::order::is_permutation;
use vstd::prelude::*;

verus! {

/// Relies on `fastrand::shuffle`: it swaps values within the slice, so the
/// result holds the same values, each as many times.
#[verifier::external_body]
pub(crate) fn shuffle(v: &mut Vec<i32>)
    ensures
        is_permutation(final(v)@, old(v)@),
        final(v)@.len() == old(v)@.len(),
{
    fastrand::shuffle(v.as_mut_slice());
}

/// Relies on `fastrand::i32`: for the half-open range `min..max`, which must not
/// be empty, a value in that range.
#[verifier::external_body]
fn random_in(min: i32, max: i32) -> (r: i32)
    requires
        min < max,
    ensures
        min <= r < max,
{
    fastrand::i32(min..max)
}

/// `n` random values, each in `min..max`.
pub fn generate_vec(n: usize, min: i32, max: i32) -> (r: Vec<i32>)
    requires
        n == 0 || min < max,
    ensures
        r@.len() == n,
        forall|i: int| 0 <= i < n ==> min <= #[trigger] r@[i] < max,
{
    let mut v: Vec<i32> = Vec::with_capacity(n);
    while v.len() < n
        invariant
            n == 0 || min < max,
            v@.len() <= n,
            forall|i: int| 0 <= i < v@.len() ==> min <= #[trigger] v@[i] < max,
        decreases n - v@.len(),
    {
        v.push(random_in(min, max));
    }
    v
}

} // verus!
