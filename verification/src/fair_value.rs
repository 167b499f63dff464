//! Which venues contribute to the depth-weighted fair value: those whose
//! top-of-book depth is not at or below zero. The weighted mean itself is
//! floating point and computed outside the library.

use vstd::prelude::*;
use crate::binary64::{le, spec_le, ZERO};

verus! {

/// A depth (binary64) counts toward the fair value unless it compares at or
/// below zero (a NaN depth counts).
pub open spec fn contributes(depth: u64) -> bool {
    !spec_le(depth, ZERO)
}

/// Positions of the contributing depths, in order.
pub open spec fn contributing_positions(depths: Seq<u64>) -> Seq<usize>
    decreases depths.len(),
{
    if depths.len() == 0 {
        Seq::empty()
    } else {
        let prev = contributing_positions(depths.drop_last());
        if contributes(depths.last()) {
            prev.push((depths.len() - 1) as usize)
        } else {
            prev
        }
    }
}

/// Positions of the venues whose depth contributes, in order.
pub fn contributing_venues(depths: &[u64]) -> (r: Vec<usize>)
    ensures
        r@ == contributing_positions(depths@),
{
    let mut out: Vec<usize> = Vec::new();
    let mut i: usize = 0;
    proof {
        assert(depths@.take(0) =~= Seq::<u64>::empty());
    }
    while i < depths.len()
        invariant
            i <= depths@.len(),
            out@ == contributing_positions(depths@.take(i as int)),
        decreases depths@.len() - i,
    {
        proof {
            assert(depths@.take(i + 1).drop_last() =~= depths@.take(i as int));
            assert(depths@.take(i + 1).last() == depths@[i as int]);
        }
        if !le(depths[i], ZERO) {
            out.push(i);
        }
        i = i + 1;
    }
    proof {
        assert(depths@.take(depths@.len() as int) =~= depths@);
    }
    out
}

/// The fair value is healthy when at least two venues contribute.
pub fn fair_value_healthy(contributing: usize) -> (r: bool)
    ensures
        r == (contributing >= 2),
{
    contributing >= 2
}

} // verus!
