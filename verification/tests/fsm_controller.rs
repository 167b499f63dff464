use funding_bot::fsm_controller::{step, FsmState, Mode, RiskReport};

fn rr(layer: &str, red: bool) -> RiskReport {
    RiskReport { layer: layer.to_string(), red_flag: red }
}

#[test]
fn zero_flags_healthy_is_kelly_safe() {
    let mut s = FsmState::new();
    let d = step(&mut s, 0, &[rr("entropic_ce", false), rr("cvar", false)], false, true, false);
    assert_eq!(d.mode, Mode::KellySafe);
    assert_eq!(d.notional_scale_bps, 10_000);
    assert!(!d.emergency_flatten);
}

#[test]
fn zero_flags_unhealthy_is_neutral() {
    let mut s = FsmState::new();
    let d = step(&mut s, 0, &[], false, false, false);
    assert_eq!(d.mode, Mode::Neutral);
    assert_eq!(d.notional_scale_bps, 8_500);
}

#[test]
fn one_flag_is_neutral_with_reduced_scale() {
    let mut s = FsmState::new();
    let d = step(&mut s, 0, &[rr("cvar", true)], false, true, false);
    assert_eq!(d.mode, Mode::Neutral);
    assert_eq!(d.notional_scale_bps, 7_500);
    assert_eq!(d.red_flags_fired, vec!["cvar".to_string()]);
}

#[test]
fn two_flags_trigger_robust_and_flatten() {
    let mut s = FsmState::new();
    let d = step(&mut s, 100_000, &[rr("cvar", true), rr("ecv", true)], false, true, false);
    assert_eq!(d.mode, Mode::Robust);
    assert!(d.emergency_flatten);
    assert_eq!(d.emergency_flatten_seconds, 120);
    assert_eq!(d.notional_scale_bps, 4_000);
    assert_eq!(s.last_flatten_at_ms, 100_000);
}

#[test]
fn forecast_flag_counts_as_one_red() {
    let mut s = FsmState::new();
    let d = step(&mut s, 0, &[rr("cvar", true)], true, true, false);
    assert_eq!(d.mode, Mode::Robust);
    assert_eq!(d.red_flags_fired.len(), 2);
}

#[test]
fn cooldown_active_sticks_in_robust() {
    let mut s = FsmState::new();
    let d = step(&mut s, 0, &[], false, true, true);
    assert_eq!(d.mode, Mode::Robust);
    assert!(!d.emergency_flatten);
}

#[test]
fn robust_windows_and_retry_budget() {
    let mut s = FsmState::new();
    let d = step(&mut s, 5, &[rr("a", true), rr("b", true), rr("c", false)], false, true, false);
    assert_eq!(d.retry_budget, 1);
    assert_eq!(d.ioc_window_ms, 80);
    assert_eq!(d.red_flags_fired, vec!["a".to_string(), "b".to_string()]);
    assert_eq!(s.mode, Some(Mode::Robust));
}

#[test]
fn neutral_and_kelly_windows() {
    let mut s = FsmState::new();
    let n = step(&mut s, 7, &[rr("cvar", true)], false, true, false);
    assert_eq!(n.ioc_window_ms, 140);
    assert_eq!(n.retry_budget, 2);
    assert_eq!(s.last_flatten_at_ms, 0);
    let k = step(&mut s, 8, &[], false, true, false);
    assert_eq!(k.ioc_window_ms, 180);
    assert_eq!(k.retry_budget, 3);
    assert_eq!(s.mode, Some(Mode::KellySafe));
}

#[test]
fn emergency_rationale_lists_the_fired_layers() {
    let mut s = FsmState::new();
    let d = step(&mut s, 5, &[rr("cvar", true), rr("ecv", true), rr("entropic_ce", false)], false, true, false);
    assert_eq!(d.rationale, "red_flags\u{2265}2: [\"cvar\", \"ecv\"]");
    let mut s = FsmState::new();
    let d = step(&mut s, 5, &[rr("cvar", false)], false, true, true);
    assert_eq!(d.rationale, "cooldown_active");
    let mut s = FsmState::new();
    let d = step(&mut s, 5, &[rr("cvar", true)], false, true, false);
    assert_eq!(d.rationale, "1 red flag: cvar");
}
