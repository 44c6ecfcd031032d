//! Randomized parameter initialization.

use vstd::prelude::*;

use crate::fixed::FX_ONE;

verus! {

/// Relies on `rand::random_range` (the thread-local generator): the sampled
/// value lies in the given inclusive range, here one unit either side of zero.
/// Nothing more is promised of a random sample.
#[verifier::external_body]
pub(crate) fn random_unit() -> (r: i64)
    ensures
        -(FX_ONE as int) <= r <= FX_ONE as int,
{
    rand::random_range(-FX_ONE..=FX_ONE)
}

} // verus!
