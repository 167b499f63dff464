//! Bucket rule of the latency histograms: an observation is counted in the
//! first bucket whose upper bound it does not exceed, else in the overflow
//! bucket after the last bound. Bounds and observations are binary64.

use vstd::prelude::*;
use crate::binary64::{le, spec_le};

verus! {

/// Bucket of observation `v` against the upper `bounds`: the first bound
/// `v` does not exceed, or `bounds.len()` (overflow) when there is none.
pub fn bucket_index(v: u64, bounds: &[u64]) -> (r: usize)
    ensures
        r <= bounds@.len(),
        forall|k: int| 0 <= k < r ==> !spec_le(v, #[trigger] bounds@[k]),
        r < bounds@.len() ==> spec_le(v, bounds@[r as int]),
{
    let mut i: usize = 0;
    while i < bounds.len()
        invariant
            i <= bounds@.len(),
            forall|k: int| 0 <= k < i ==> !spec_le(v, #[trigger] bounds@[k]),
        decreases bounds@.len() - i,
    {
        if le(v, bounds[i]) {
            return i;
        }
        i = i + 1;
    }
    i
}

} // verus!
