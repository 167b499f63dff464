use funding_bot::risk::heartbeat::HedgeHeartbeat;
use funding_bot::risk::{RiskDecision, RiskReason};

const MS: u64 = 1_000_000;
const S: u64 = 1_000_000_000;
const T0: u64 = 50_000 * S;

#[test]
fn no_fills_passes() {
    let hb = HedgeHeartbeat::new();
    assert_eq!(hb.check(T0), RiskDecision::Pass);
}

#[test]
fn paired_fills_within_window_pass() {
    let mut hb = HedgeHeartbeat::new();
    hb.record_pivot_fill(T0);
    hb.record_hedge_fill(T0 + 500 * MS);
    assert_eq!(hb.check(T0 + 3 * S), RiskDecision::Pass);
}

#[test]
fn pivot_without_hedge_triggers_reduce_then_flatten() {
    let mut hb = HedgeHeartbeat::with_params(5 * S, 2 * S);
    hb.record_pivot_fill(T0);
    hb.record_hedge_fill(T0 + 100 * MS);
    hb.record_pivot_fill(T0 + 10 * S);
    let t_check = T0 + 11 * S;
    assert!(matches!(hb.check(t_check), RiskDecision::Flatten { .. }), "gap > 2x max must flatten");
}

#[test]
fn moderate_gap_triggers_reduce() {
    let mut hb = HedgeHeartbeat::with_params(5 * S, 2 * S);
    hb.record_pivot_fill(T0);
    hb.record_hedge_fill(T0 + 100 * MS);
    hb.record_pivot_fill(T0 + 6 * S);
    match hb.check(T0 + 7 * S) {
        RiskDecision::Reduce { size_multiplier_bps, .. } => assert!(size_multiplier_bps < 10_000),
        other => panic!("expected Reduce, got {:?}", other),
    }
}

#[test]
fn reduce_carries_gap_and_quarter_size() {
    let mut hb = HedgeHeartbeat::with_params(5 * S, 2 * S);
    hb.record_pivot_fill(T0);
    hb.record_hedge_fill(T0 + 100 * MS);
    hb.record_pivot_fill(T0 + 6 * S);
    assert_eq!(
        hb.check(T0 + 7 * S),
        RiskDecision::Reduce {
            size_multiplier_bps: 2_500,
            reason: RiskReason::HedgeGapDegraded { gap_ns: 6_900 * MS, max_gap_ns: 5 * S },
        }
    );
}

#[test]
fn gap_boundaries_are_exact() {
    let mut hb = HedgeHeartbeat::with_params(5 * S, 2 * S);
    hb.record_pivot_fill(T0);
    hb.record_hedge_fill(T0);
    hb.record_pivot_fill(T0 + 3 * S);
    assert_eq!(hb.check(T0 + 5 * S - 1), RiskDecision::Pass);
    assert!(matches!(hb.check(T0 + 5 * S), RiskDecision::Reduce { .. }));
    assert!(matches!(hb.check(T0 + 10 * S - 1), RiskDecision::Reduce { .. }));
    assert!(matches!(hb.check(T0 + 10 * S), RiskDecision::Flatten { .. }));
}

#[test]
fn hedge_fill_restores_pass() {
    let mut hb = HedgeHeartbeat::with_params(5 * S, 2 * S);
    hb.record_pivot_fill(T0);
    hb.record_hedge_fill(T0);
    hb.record_pivot_fill(T0 + 30 * S);
    assert!(matches!(hb.check(T0 + 60 * S), RiskDecision::Flatten { .. }));
    hb.record_hedge_fill(T0 + 31 * S);
    assert_eq!(hb.check(T0 + 1_000 * S), RiskDecision::Pass);
}

#[test]
fn fills_outside_pair_window_do_not_pair() {
    let mut hb = HedgeHeartbeat::with_params(5 * S, 2 * S);
    hb.record_pivot_fill(T0);
    hb.record_hedge_fill(T0 + 3 * S);
    assert_eq!(hb.check(T0 + 100 * S), RiskDecision::Pass);
}

#[test]
fn unpaired_pivot_fill_escalates_by_gap_since_pair() {
    let mut hb = HedgeHeartbeat::with_params(5 * S, 2 * S);
    hb.record_pivot_fill(10 * S);
    hb.record_hedge_fill(10 * S + 100_000_000); // paired at 10.1 s
    hb.record_pivot_fill(16 * S); // hedge 5.9 s behind: not paired
    let p = 10 * S + 100_000_000;
    assert_eq!(hb.check(p + 4 * S), RiskDecision::Pass);
    assert!(matches!(hb.check(p + 5 * S), RiskDecision::Reduce { size_multiplier_bps: 2_500, .. }));
    assert!(matches!(hb.check(p + 10 * S - 1), RiskDecision::Reduce { .. }));
    assert!(matches!(hb.check(p + 10 * S), RiskDecision::Flatten { .. }));
    assert_eq!(hb.max_hedge_gap_ns(), 5 * S);
    let copy = hb.clone();
    assert_eq!(copy.check(p + 10 * S), hb.check(p + 10 * S));
}
