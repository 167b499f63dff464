//! Runtime risk guards whose decisions are integer-valued: the hedge-leg
//! heartbeat, the API-latency watchdog and the kill switch; the threshold
//! rules of the guards whose measures are floating point (`levels`); and
//! the worst-wins composition with the mode controller (`stack`).
//!
//! Every guard exposes a pure `check` returning a [`RiskDecision`]; size
//! multipliers are basis points of full size (10_000 = full size) and times
//! are nanoseconds on a monotonic clock.

pub mod heartbeat;
pub mod kill_switch;
pub mod levels;
pub mod stack;
pub mod watchdog;

use vstd::prelude::*;

verus! {

/// Full size, in basis points.
pub const FULL_SIZE_BPS: u32 = 10_000;

/// Why a guard asked for less than full size. Durations in nanoseconds.
#[derive(Debug, Clone, Copy, PartialEq, Eq, Structural)]
pub enum RiskReason {
    /// Hedge gap at or above the maximum, below twice the maximum.
    HedgeGapDegraded { gap_ns: u64, max_gap_ns: u64 },
    /// Hedge gap at or above twice the maximum.
    HedgeGapCritical { gap_ns: u64, max_gap_ns: u64 },
    /// P99 latency at or above the warning threshold.
    LatencyWarn { p99_ns: u64, warn_ns: u64 },
    /// P99 latency at or above the fatal threshold, not yet sustained.
    LatencyFatal { p99_ns: u64, fatal_ns: u64 },
    /// P99 latency at or above the fatal threshold for the sustained window.
    LatencySustained { p99_ns: u64, sustained_ns: u64 },
    /// The operator's interrupt signal was received.
    KillSignal,
    /// The kill flag file is present.
    KillFlagFile,
}

/// Output of a single risk guard.
#[derive(Debug, Clone, Copy, PartialEq, Eq, Structural)]
pub enum RiskDecision {
    /// No violation.
    Pass,
    /// Downsize new orders to `size_multiplier_bps` of full size.
    Reduce { size_multiplier_bps: u32, reason: RiskReason },
    /// Block new entries; existing positions untouched.
    Block { reason: RiskReason },
    /// Terminate all positions at market.
    Flatten { reason: RiskReason },
}

/// Severity of a decision: Pass < Reduce < Block < Flatten.
pub open spec fn severity(d: RiskDecision) -> nat {
    match d {
        RiskDecision::Pass => 0,
        RiskDecision::Reduce { .. } => 1,
        RiskDecision::Block { .. } => 2,
        RiskDecision::Flatten { .. } => 3,
    }
}

/// Size multiplier (basis points) that a decision allows.
pub open spec fn spec_size_multiplier_bps(d: RiskDecision) -> u32 {
    match d {
        RiskDecision::Pass => FULL_SIZE_BPS,
        RiskDecision::Reduce { size_multiplier_bps, .. } => size_multiplier_bps,
        RiskDecision::Block { .. } => 0,
        RiskDecision::Flatten { .. } => 0,
    }
}

impl RiskDecision {
    /// Whether the decision blocks new entries (Block or Flatten).
    pub fn is_blocking(&self) -> (r: bool)
        ensures
            r <==> (*self is Block || *self is Flatten),
    {
        match self {
            RiskDecision::Block { .. } | RiskDecision::Flatten { .. } => true,
            _ => false,
        }
    }

    /// Size multiplier in basis points: full size for Pass, the given
    /// multiplier for Reduce, zero for Block and Flatten.
    pub fn size_multiplier_bps(&self) -> (r: u32)
        ensures
            r == spec_size_multiplier_bps(*self),
    {
        match self {
            RiskDecision::Pass => FULL_SIZE_BPS,
            RiskDecision::Reduce { size_multiplier_bps, .. } => *size_multiplier_bps,
            RiskDecision::Block { .. } | RiskDecision::Flatten { .. } => 0,
        }
    }

    /// Severity rank (higher is worse).
    pub fn severity_rank(&self) -> (r: u8)
        ensures
            r as nat == severity(*self),
    {
        match self {
            RiskDecision::Pass => 0,
            RiskDecision::Reduce { .. } => 1,
            RiskDecision::Block { .. } => 2,
            RiskDecision::Flatten { .. } => 3,
        }
    }
}

/// Time elapsed from `then` to `now`, zero when `then` is later.
pub open spec fn saturating_since(now: u64, then: u64) -> u64 {
    if now >= then {
        (now - then) as u64
    } else {
        0
    }
}

} // verus!
