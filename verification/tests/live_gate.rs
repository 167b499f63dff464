use funding_bot::live_gate::{
    assert_live_allowed, has_cvar_guard_nonstub, has_fsm_emergency_flatten,
    has_funding_cycle_lock, has_heartbeat, has_kill_switch, has_pacifica_watchdog,
    is_live_allowed, missing_components, preflight_live_gate, LiveGateError,
    RUNNER_ALLOW_LIVE_ENV,
};

#[test]
fn preflight_demo_mode_passes_when_unset() {
    assert!(preflight_live_gate(None).is_ok(), "unset env var -> demo mode -> Ok");
}

#[test]
fn preflight_demo_mode_passes_when_zero() {
    assert!(preflight_live_gate(Some("0")).is_ok());
}

#[test]
fn preflight_demo_mode_passes_when_true_string() {
    assert!(preflight_live_gate(Some("true")).is_ok());
}

#[test]
fn preflight_live_mode_fails_with_missing_components() {
    let result = preflight_live_gate(Some("1"));
    assert!(result.is_ok(), "preflight should pass with all 6 guards wired, got: {result:?}");
}

#[test]
fn is_live_allowed_matches_env() {
    assert!(is_live_allowed(Some("1")));
    assert!(!is_live_allowed(Some("0")));
    assert!(!is_live_allowed(None));
}

#[test]
fn assert_live_allowed_rejects_non_one() {
    assert!(assert_live_allowed(Some("0")).is_err());
    assert!(assert_live_allowed(Some("1")).is_ok());
}

#[test]
fn funding_cycle_lock_is_wired() {
    assert!(has_funding_cycle_lock());
}

#[test]
fn six_guard_stack_wired_true() {
    assert!(has_cvar_guard_nonstub());
    assert!(has_kill_switch());
    assert!(has_heartbeat());
    assert!(has_pacifica_watchdog());
}

#[test]
fn fsm_controller_wired() {
    assert!(has_fsm_emergency_flatten());
}

#[test]
fn no_component_is_missing() {
    assert!(missing_components().is_empty());
}

#[test]
fn assert_live_allowed_reports_value_or_absence() {
    assert_eq!(assert_live_allowed(None), Err(LiveGateError::NotSet));
    assert_eq!(assert_live_allowed(Some("11")), Err(LiveGateError::WrongValue("11".to_string())));
    assert_eq!(assert_live_allowed(Some(" 1")), Err(LiveGateError::WrongValue(" 1".to_string())));
    assert_eq!(RUNNER_ALLOW_LIVE_ENV, "RUNNER_ALLOW_LIVE");
}
