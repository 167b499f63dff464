//! Per-tick telemetry of the funding-cycle lock.

use vstd::prelude::*;
use crate::cycle_lock::EnforceOutcome;
use crate::funding_cycle_lock::{
    ms_to_cycle_end, spec_ms_to_cycle_end, CycleState, DEFAULT_CYCLE_SECONDS,
};

verus! {

/// Compact cycle-lock telemetry for one tick.
#[derive(Debug, Clone, Copy, PartialEq, Eq, Structural)]
pub struct CycleLockInfo {
    /// A cycle is locked for the symbol.
    pub locked: bool,
    /// Index of the locked cycle (0 when none).
    pub cycle_index: i64,
    /// Locked direction (0 when none).
    pub h_c: i8,
    /// Locked notional, binary64 encoding (0.0 when none).
    pub n_c: u64,
    /// Milliseconds until the cycle boundary.
    pub ms_to_cycle_end: i64,
    /// An emergency override was used this tick.
    pub emergency_override: bool,
    /// This tick opened a fresh cycle.
    pub opened_new_cycle: bool,
    /// A proposed flip or rebalance was blocked.
    pub proposed_was_blocked: bool,
}

impl CycleLockInfo {
    /// Telemetry from an enforcement outcome and the symbol's cycle state
    /// after it, at `now_ms`.
    pub fn from_outcome(outcome: &EnforceOutcome, state: Option<CycleState>, now_ms: i64) -> (r: Self)
        requires
            match state {
                Some(s) => 0 < s.cycle_seconds <= i64::MAX / 1000,
                None => true,
            },
        ensures
            r.locked == state is Some,
            r.cycle_index == (match state {
                Some(s) => s.cycle_index,
                None => 0,
            }),
            r.h_c == (match state {
                Some(s) => s.h_c,
                None => 0,
            }),
            r.n_c == (match state {
                Some(s) => s.n_c,
                None => 0,
            }),
            r.ms_to_cycle_end == spec_ms_to_cycle_end(
                now_ms as int,
                match state {
                    Some(s) => s.cycle_seconds as int,
                    None => DEFAULT_CYCLE_SECONDS as int,
                },
            ),
            r.emergency_override == outcome.raw.emergency_override_used,
            r.opened_new_cycle == outcome.opened_new_cycle,
            r.proposed_was_blocked == (outcome.pair_flip_blocked || outcome.raw.proposed_was_blocked),
    {
        let (locked, cycle_index, h_c, n_c, cycle_seconds) = match state {
            Some(s) => (true, s.cycle_index, s.h_c, s.n_c, s.cycle_seconds),
            None => (false, 0i64, 0i8, 0u64, DEFAULT_CYCLE_SECONDS),
        };
        CycleLockInfo {
            locked,
            cycle_index,
            h_c,
            n_c,
            ms_to_cycle_end: ms_to_cycle_end(now_ms, cycle_seconds),
            emergency_override: outcome.raw.emergency_override_used,
            opened_new_cycle: outcome.opened_new_cycle,
            proposed_was_blocked: outcome.pair_flip_blocked || outcome.raw.proposed_was_blocked,
        }
    }
}

} // verus!
