//! Live-submission gate.
//!
//! Run once at start-up with the value of the `RUNNER_ALLOW_LIVE`
//! environment variable: any value other than `"1"` (or no value) is demo
//! mode and passes silently; `"1"` is live mode, which passes only when
//! every required component is wired, and otherwise names the missing ones.

use vstd::prelude::*;

verus! {

/// Environment variable the operator sets to `"1"` to allow live orders.
pub const RUNNER_ALLOW_LIVE_ENV: &'static str = "RUNNER_ALLOW_LIVE";

/// Whether a value of the environment variable is exactly `"1"`.
pub open spec fn spec_is_live_value(value: Option<Seq<char>>) -> bool {
    value == Some(seq!['1'])
}

/// View of an optional string slice.
pub open spec fn opt_view(value: Option<&str>) -> Option<Seq<char>> {
    match value {
        Some(s) => Some(s@),
        None => None,
    }
}

/// The funding-cycle lock is wired into the decision path.
pub fn has_funding_cycle_lock() -> (r: bool)
    ensures
        r,
{
    true
}

/// The mode controller's emergency flatten is wired.
pub fn has_fsm_emergency_flatten() -> (r: bool)
    ensures
        r,
{
    true
}

/// The CVaR budget guard is evaluated on every tick.
pub fn has_cvar_guard_nonstub() -> (r: bool)
    ensures
        r,
{
    true
}

/// The kill switch (signal and flag file) is wired.
pub fn has_kill_switch() -> (r: bool)
    ensures
        r,
{
    true
}

/// The hedge-leg heartbeat is wired.
pub fn has_heartbeat() -> (r: bool)
    ensures
        r,
{
    true
}

/// The venue API latency watchdog is wired.
pub fn has_pacifica_watchdog() -> (r: bool)
    ensures
        r,
{
    true
}

/// Whether `value` is exactly `"1"`.
pub fn is_live_value(value: &str) -> (r: bool)
    ensures
        r == (value@ == seq!['1']),
{
    if value.unicode_len() != 1 {
        return false;
    }
    let c = value.get_char(0);
    if c == '1' {
        assert(value@ =~= seq!['1']);
        true
    } else {
        false
    }
}

/// Non-failing probe: true iff the variable's value is exactly `"1"`.
pub fn is_live_allowed(value: Option<&str>) -> (r: bool)
    ensures
        r == spec_is_live_value(opt_view(value)),
{
    match value {
        Some(v) => is_live_value(v),
        None => false,
    }
}

/// Labels of the required components that are not wired, in check order.
pub fn missing_components() -> (r: Vec<&'static str>)
    ensures
        r@.len() == 0,
{
    let mut missing: Vec<&'static str> = Vec::new();
    if !has_funding_cycle_lock() {
        missing.push("I-LOCK funding_cycle_lock");
    }
    if !has_fsm_emergency_flatten() {
        missing.push("I-KILL fsm_controller (emergency_flatten)");
    }
    if !has_cvar_guard_nonstub() {
        missing.push("I-BUDGET cvar_guard (non-stub)");
    }
    if !has_kill_switch() {
        missing.push("kill_switch (SIGTERM flatten handler)");
    }
    if !has_heartbeat() {
        missing.push("heartbeat (5s hedge-fill watchdog)");
    }
    if !has_pacifica_watchdog() {
        missing.push("Pacifica API watchdog (3s latency)");
    }
    missing
}

/// Start-up gate: demo mode (any value but `"1"`) passes; live mode passes
/// iff no required component is missing, otherwise the error lists them.
/// All required components are present, so every value is accepted.
pub fn preflight_live_gate(value: Option<&str>) -> (r: Result<(), Vec<&'static str>>)
    ensures
        r is Ok,
{
    if !is_live_allowed(value) {
        return Ok(());
    }
    let missing = missing_components();
    if missing.len() == 0 {
        Ok(())
    } else {
        Err(missing)
    }
}

/// Why a submission boundary refused to go live.
#[derive(Debug, Clone, PartialEq, Eq)]
pub enum LiveGateError {
    /// The variable is set, to another value than `"1"`.
    WrongValue(String),
    /// The variable is not set.
    NotSet,
}

/// Submission-boundary check of the variable alone (no component check):
/// `Ok` iff it is exactly `"1"`.
pub fn assert_live_allowed(value: Option<&str>) -> (r: Result<(), LiveGateError>)
    ensures
        r is Ok <==> spec_is_live_value(opt_view(value)),
        (match value {
            None => r == Err::<(), LiveGateError>(LiveGateError::NotSet),
            Some(v) => !spec_is_live_value(opt_view(value)) ==> (r matches Err(
                LiveGateError::WrongValue(s),
            ) && s@ == v@),
        }),
{
    match value {
        Some(v) => {
            if is_live_value(v) {
                Ok(())
            } else {
                Err(LiveGateError::WrongValue(v.to_owned()))
            }
        },
        None => Err(LiveGateError::NotSet),
    }
}

} // verus!
