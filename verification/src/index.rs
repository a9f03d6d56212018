//! Conversion of a key distance into a histogram index.

use vstd::prelude::*;

verus! {

/// The index that a distance of `d` buckets stands for, if a `usize` can hold
/// it.
pub open spec fn index_of(d: u128) -> Option<usize> {
    if d <= usize::MAX {
        Some(d as usize)
    } else {
        None
    }
}

/// Converts a distance into an index with `num_traits::cast::<u128, usize>`.
///
/// Trusted, not proved: `cast` hands the value to `u128`'s `to_usize`, which
/// returns the same number as a `usize` where it is at most `usize::MAX`, and
/// `None` where it is larger. It never panics.
#[verifier::external_body]
pub(crate) fn to_index(d: u128) -> (r: Option<usize>)
    ensures
        r == index_of(d),
{
    num_traits::cast::<u128, usize>(d)
}

} // verus!
