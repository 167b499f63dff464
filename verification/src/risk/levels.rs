//! Threshold rules of the guards whose measures are floating point (CVaR
//! budget, drawdown stop, venue concentration). The measures are computed
//! outside the library; the rules compare their binary64 encodings.

use vstd::prelude::*;
use crate::binary64::{is_finite, lt, spec_is_finite, spec_le, spec_lt, ZERO};

verus! {

/// Escalation level a guard's rule assigns.
#[derive(Debug, Clone, Copy, PartialEq, Eq, Structural)]
pub enum GuardLevel {
    Pass,
    Reduce,
    Block,
    Flatten,
}

/// Binary64 encoding of 2.
pub const TWO: u64 = 0x4000_0000_0000_0000;

/// CVaR budget rule. A NAV that is not a finite positive number blocks;
/// otherwise a CVaR above the budget reduces while it overshoots the budget
/// less than twice, and blocks beyond; a CVaR within budget passes.
pub fn cvar_budget_level(nav: u64, cvar: u64, budget: u64, overshoot: u64) -> (r: GuardLevel)
    ensures
        r == (if !(spec_is_finite(nav) && spec_lt(ZERO, nav)) {
            GuardLevel::Block
        } else if spec_lt(budget, cvar) {
            if spec_lt(overshoot, TWO) {
                GuardLevel::Reduce
            } else {
                GuardLevel::Block
            }
        } else {
            GuardLevel::Pass
        }),
{
    if !(is_finite(nav) && lt(ZERO, nav)) {
        GuardLevel::Block
    } else if lt(budget, cvar) {
        if lt(overshoot, TWO) {
            GuardLevel::Reduce
        } else {
            GuardLevel::Block
        }
    } else {
        GuardLevel::Pass
    }
}

/// Drawdown rule. A stop that is not a finite positive number passes;
/// otherwise a drawdown below half the stop passes, one below the stop
/// reduces, and any other flattens.
pub fn drawdown_level(drawdown: u64, stop: u64, half_stop: u64) -> (r: GuardLevel)
    ensures
        r == drawdown_level_spec(drawdown, stop, half_stop),
{
    if !(is_finite(stop) && lt(ZERO, stop)) {
        GuardLevel::Pass
    } else if lt(drawdown, half_stop) {
        GuardLevel::Pass
    } else if lt(drawdown, stop) {
        GuardLevel::Reduce
    } else {
        GuardLevel::Flatten
    }
}

/// Concentration rule: an index below the warning threshold passes, one
/// below the blocking threshold reduces, any other blocks.
pub fn concentration_level(hhi: u64, warn: u64, block: u64) -> (r: GuardLevel)
    ensures
        r == concentration_level_spec(hhi, warn, block),
{
    if lt(hhi, warn) {
        GuardLevel::Pass
    } else if lt(hhi, block) {
        GuardLevel::Reduce
    } else {
        GuardLevel::Block
    }
}

/// A larger drawdown never eases the drawdown rule (for a valid stop and
/// half-stop not above the stop).
pub proof fn lemma_drawdown_escalates(d1: u64, d2: u64, stop: u64, half_stop: u64)
    requires
        spec_le(d1, d2),
        spec_le(half_stop, stop),
    ensures
        level_rank(drawdown_level_spec(d1, stop, half_stop)) <= level_rank(
            drawdown_level_spec(d2, stop, half_stop),
        ),
{
}

/// Severity rank of a level: Pass 0, Reduce 1, Block 2, Flatten 3.
pub open spec fn level_rank(l: GuardLevel) -> nat {
    match l {
        GuardLevel::Pass => 0,
        GuardLevel::Reduce => 1,
        GuardLevel::Block => 2,
        GuardLevel::Flatten => 3,
    }
}

/// What `drawdown_level` returns.
pub open spec fn drawdown_level_spec(drawdown: u64, stop: u64, half_stop: u64) -> GuardLevel {
    if !(spec_is_finite(stop) && spec_lt(ZERO, stop)) {
        GuardLevel::Pass
    } else if spec_lt(drawdown, half_stop) {
        GuardLevel::Pass
    } else if spec_lt(drawdown, stop) {
        GuardLevel::Reduce
    } else {
        GuardLevel::Flatten
    }
}

/// A larger concentration index never eases the concentration rule (for a
/// warning threshold not above the blocking one).
pub proof fn lemma_concentration_escalates(h1: u64, h2: u64, warn: u64, block: u64)
    requires
        spec_le(h1, h2),
        spec_le(warn, block),
    ensures
        level_rank(concentration_level_spec(h1, warn, block)) <= level_rank(
            concentration_level_spec(h2, warn, block),
        ),
{
}

/// What `concentration_level` returns.
pub open spec fn concentration_level_spec(hhi: u64, warn: u64, block: u64) -> GuardLevel {
    if spec_lt(hhi, warn) {
        GuardLevel::Pass
    } else if spec_lt(hhi, block) {
        GuardLevel::Reduce
    } else {
        GuardLevel::Block
    }
}

} // verus!
