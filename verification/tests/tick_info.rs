use funding_bot::cycle_lock::CycleLockRegistry;
use funding_bot::decision::PairDecision;
use funding_bot::tick::CycleLockInfo;
use funding_bot::venue::Venue;

#[test]
fn lock_info_reflects_outcome_and_state() {
    let mut reg = CycleLockRegistry::new();
    let d = PairDecision {
        long_venue: Venue::Backpack,
        short_venue: Venue::Hyperliquid,
        symbol: "BTC".into(),
        spread_annual: 0.2f64.to_bits(),
        cost_fraction: 0.001f64.to_bits(),
        net_annual: 0.199f64.to_bits(),
        notional_usd: 50.0f64.to_bits(),
        reason: String::new(),
        would_have_executed: true,
    };
    let now_ms = 7_200_000 + 600_000;
    let out = reg.enforce_decision("BTC", now_ms, Some(&d), false);
    let info = CycleLockInfo::from_outcome(&out, reg.state_for("BTC"), now_ms);
    assert!(info.locked);
    assert_eq!(info.cycle_index, 2);
    assert_eq!(info.h_c, 1);
    assert_eq!(f64::from_bits(info.n_c), 50.0);
    assert_eq!(info.ms_to_cycle_end, 3_000_000);
    assert!(info.opened_new_cycle);
    assert!(!info.proposed_was_blocked);
    let none = CycleLockInfo::from_outcome(&out, None, 0);
    assert!(!none.locked);
    assert_eq!(none.ms_to_cycle_end, 3_600_000);
}
