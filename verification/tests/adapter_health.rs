use funding_bot::adapter_health::{AdapterHealthRegistry, DEGRADATION_THRESHOLD};
use funding_bot::venue::Venue;

#[test]
fn default_health_is_all_zero() {
    let reg = AdapterHealthRegistry::new();
    let h = reg.health_for("BTC");
    assert_eq!(h.total_failures, 0);
    assert_eq!(h.consecutive_failures, 0);
    assert!(!h.is_degraded);
    assert!(h.last_failure_venue.is_none());
}

#[test]
fn success_tick_keeps_zero() {
    let mut reg = AdapterHealthRegistry::new();
    reg.record_tick("BTC", &[]);
    let h = reg.health_for("BTC");
    assert_eq!(h.consecutive_failures, 0);
    assert_eq!(h.total_failures, 0);
    assert!(!h.is_degraded);
}

#[test]
fn single_failure_increments_counters() {
    let mut reg = AdapterHealthRegistry::new();
    reg.record_tick("PAXG", &[(Venue::Pacifica, "parse error")]);
    let h = reg.health_for("PAXG");
    assert_eq!(h.total_failures, 1);
    assert_eq!(h.consecutive_failures, 1);
    assert!(!h.is_degraded);
    assert_eq!(h.last_failure_venue.as_deref(), Some("Pacifica"));
}

#[test]
fn three_consecutive_failures_trip_degraded() {
    let mut reg = AdapterHealthRegistry::new();
    for _ in 0..3 {
        reg.record_tick("PAXG", &[(Venue::Pacifica, "parse error")]);
    }
    let h = reg.health_for("PAXG");
    assert_eq!(h.consecutive_failures, 3);
    assert!(h.is_degraded);
}

#[test]
fn success_after_failures_resets_consecutive_and_clears_degraded() {
    let mut reg = AdapterHealthRegistry::new();
    for _ in 0..3 {
        reg.record_tick("PAXG", &[(Venue::Pacifica, "parse error")]);
    }
    assert!(reg.health_for("PAXG").is_degraded);
    reg.record_tick("PAXG", &[]);
    let h = reg.health_for("PAXG");
    assert_eq!(h.consecutive_failures, 0);
    assert!(!h.is_degraded);
    assert_eq!(h.total_failures, 3);
}

#[test]
fn multiple_failures_in_one_tick_count_individually_for_total() {
    let mut reg = AdapterHealthRegistry::new();
    reg.record_tick("XAU", &[(Venue::Pacifica, "err1"), (Venue::Hyperliquid, "err2")]);
    let h = reg.health_for("XAU");
    assert_eq!(h.total_failures, 2);
    assert_eq!(h.consecutive_failures, 1);
}

#[test]
fn last_failure_venue_is_first_failing_venue() {
    let mut reg = AdapterHealthRegistry::new();
    reg.record_tick("ETH", &[(Venue::Lighter, "a"), (Venue::Backpack, "b")]);
    assert_eq!(reg.health_for("ETH").last_failure_venue.as_deref(), Some("Lighter"));
    reg.record_tick("ETH", &[]);
    assert_eq!(reg.health_for("ETH").last_failure_venue.as_deref(), Some("Lighter"));
    reg.record_tick("ETH", &[(Venue::Hyperliquid, "c")]);
    assert_eq!(reg.health_for("ETH").last_failure_venue.as_deref(), Some("Hyperliquid"));
}

#[test]
fn symbols_are_tracked_independently() {
    let mut reg = AdapterHealthRegistry::new();
    for _ in 0..DEGRADATION_THRESHOLD {
        reg.record_tick("BTC", &[(Venue::Backpack, "x")]);
    }
    reg.record_tick("ETH", &[]);
    assert!(reg.health_for("BTC").is_degraded);
    assert!(!reg.health_for("ETH").is_degraded);
    assert_eq!(reg.health_for("ETH").total_failures, 0);
}
