use funding_bot::risk::kill_switch::{KillSwitch, DEFAULT_FLAG_FILE};
use funding_bot::risk::{RiskDecision, RiskReason};

#[test]
fn untripped_passes() {
    let ks = KillSwitch::new("/nonexistent-dir/kill.flag");
    assert_eq!(ks.check(false), RiskDecision::Pass);
}

#[test]
fn manual_trip_triggers_flatten() {
    let mut ks = KillSwitch::new("/nonexistent-dir/kill.flag");
    ks.trip();
    assert!(matches!(ks.check(false), RiskDecision::Flatten { .. }));
}

#[test]
fn file_flag_triggers_flatten() {
    let ks = KillSwitch::new("kill.flag");
    assert_eq!(ks.check(true), RiskDecision::Flatten { reason: RiskReason::KillFlagFile });
}

#[test]
fn removing_flag_clears_after_trip_is_sticky() {
    let mut ks = KillSwitch::new("kill.flag");
    assert!(matches!(ks.check(true), RiskDecision::Flatten { .. }));
    assert_eq!(ks.check(false), RiskDecision::Pass);
    ks.trip();
    assert!(matches!(ks.check(false), RiskDecision::Flatten { .. }));
    assert_eq!(ks.check(true), RiskDecision::Flatten { reason: RiskReason::KillSignal });
}

#[test]
fn default_path_is_kill_flag() {
    let ks = KillSwitch::default_path();
    assert_eq!(ks.flag_path(), DEFAULT_FLAG_FILE);
    assert_eq!(ks.flag_path(), "kill.flag");
    assert!(!ks.is_tripped());
}
