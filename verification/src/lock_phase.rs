//! Phase markers of the typed funding-cycle lock. `Sealed` lives in a
//! private module so that no other crate can add a phase.

use vstd::prelude::*;

verus! {

/// Implemented only by the three phase markers of this crate.
pub trait Sealed {}

} // verus!
