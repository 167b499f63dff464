//! Forecast classification and the admission rules. Statistics and
//! costs are computed in floating point outside the library; the rules below
//! compare their binary64 encodings.

use vstd::prelude::*;
use crate::binary64::{is_finite, le, spec_is_finite, spec_le};

verus! {

/// Regime of the spread series.
#[derive(Debug, Clone, Copy, PartialEq, Eq, Structural)]
pub enum Regime {
    /// Mean-reverting (unit root rejected).
    Stationary,
    /// Persistent (unit root not rejected).
    Drift,
    /// Not enough history yet.
    Insufficient,
}

/// Admission verdict of the forecast.
#[derive(Debug, Clone, Copy, PartialEq, Eq, Structural)]
pub enum ForecastVerdict {
    /// Admit at full notional.
    Admit,
    /// Admit at half size.
    Reduce,
    /// Reject.
    Reject,
}

/// Size multiplier of a verdict, in basis points: Admit full, Reduce half,
/// Reject none.
pub fn verdict_size_scale_bps(v: ForecastVerdict) -> (r: u32)
    ensures
        r == match v {
            ForecastVerdict::Admit => 10_000u32,
            ForecastVerdict::Reduce => 5_000u32,
            ForecastVerdict::Reject => 0u32,
        },
{
    match v {
        ForecastVerdict::Admit => 10_000,
        ForecastVerdict::Reduce => 5_000,
        ForecastVerdict::Reject => 0,
    }
}

/// History needed before the regime test runs.
pub const MIN_REGIME_SAMPLES: usize = 50;

/// Longest break-even hold that admission scores: one week, in hours
/// (binary64 encoding).
pub const MAX_SCORED_HOLD_HOURS: u64 = 0x4065_0000_0000_0000;

/// Regime of a series of `sample_count` spreads: insufficient below the
/// minimum history; otherwise stationary when the unit-root test ran and
/// rejected, drift when it did not reject or could not run.
pub fn regime_for(sample_count: usize, rejects_unit_root: Option<bool>) -> (r: Regime)
    ensures
        r == (if sample_count < MIN_REGIME_SAMPLES {
            Regime::Insufficient
        } else if rejects_unit_root == Some(true) {
            Regime::Stationary
        } else {
            Regime::Drift
        }),
{
    if sample_count < MIN_REGIME_SAMPLES {
        Regime::Insufficient
    } else {
        match rejects_unit_root {
            Some(true) => Regime::Stationary,
            _ => Regime::Drift,
        }
    }
}

/// A break-even hold (hours) is scored when it is finite and at most a week.
pub fn hold_is_scored(tau_be_hours: u64) -> (r: bool)
    ensures
        r == (spec_is_finite(tau_be_hours) && spec_le(tau_be_hours, MAX_SCORED_HOLD_HOURS)),
{
    is_finite(tau_be_hours) && le(tau_be_hours, MAX_SCORED_HOLD_HOURS)
}

/// Verdict of a scored hold: admit when the expected hourly residual covers
/// the pro-rata hourly cost, reduce when it covers half of it, reject
/// otherwise.
pub fn admission_verdict(residual_hourly: u64, cost_per_hour: u64, half_cost_per_hour: u64) -> (r: ForecastVerdict)
    ensures
        r == (if spec_le(cost_per_hour, residual_hourly) {
            ForecastVerdict::Admit
        } else if spec_le(half_cost_per_hour, residual_hourly) {
            ForecastVerdict::Reduce
        } else {
            ForecastVerdict::Reject
        }),
{
    if le(cost_per_hour, residual_hourly) {
        ForecastVerdict::Admit
    } else if le(half_cost_per_hour, residual_hourly) {
        ForecastVerdict::Reduce
    } else {
        ForecastVerdict::Reject
    }
}

} // verus!
