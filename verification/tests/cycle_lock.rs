use funding_bot::cycle_lock::{pair_to_h, CycleLockRegistry};
use funding_bot::decision::PairDecision;
use funding_bot::funding_cycle_lock::{open_cycle, would_violate_lock, DEFAULT_CYCLE_SECONDS};
use funding_bot::venue::Venue;

fn make_decision(long: Venue, short: Venue, notional: f64) -> PairDecision {
    PairDecision {
        long_venue: long,
        short_venue: short,
        symbol: "BTC".to_string(),
        spread_annual: 0.18f64.to_bits(),
        cost_fraction: 0.0015f64.to_bits(),
        net_annual: (0.18f64 - 0.0015).to_bits(),
        notional_usd: notional.to_bits(),
        reason: "test".to_string(),
        would_have_executed: true,
    }
}

const T0_MS: i64 = 1_700_000_000_000;

#[test]
fn pair_to_h_canonical() {
    assert_eq!(pair_to_h(Venue::Pacifica, Venue::Backpack), 1);
    assert_eq!(pair_to_h(Venue::Backpack, Venue::Pacifica), -1);
    assert_eq!(pair_to_h(Venue::Pacifica, Venue::Lighter), 1);
    assert_eq!(pair_to_h(Venue::Lighter, Venue::Pacifica), -1);
}

#[test]
fn first_tick_opens_cycle() {
    let mut reg = CycleLockRegistry::new();
    let d = make_decision(Venue::Pacifica, Venue::Backpack, 100.0);
    let out = reg.enforce_decision("BTC", T0_MS, Some(&d), false);
    assert!(out.opened_new_cycle);
    assert!(!out.pair_flip_blocked);
    assert!(out.effective.is_some());
}

#[test]
fn second_tick_same_pair_holds() {
    let mut reg = CycleLockRegistry::new();
    let d = make_decision(Venue::Pacifica, Venue::Backpack, 100.0);
    reg.enforce_decision("BTC", T0_MS, Some(&d), false);
    let out = reg.enforce_decision("BTC", T0_MS + 500_000, Some(&d), false);
    assert!(!out.opened_new_cycle);
    assert!(!out.pair_flip_blocked);
    let eff = out.effective.expect("should hold locked decision");
    assert_eq!(eff.long_venue, Venue::Pacifica);
    assert_eq!(eff.short_venue, Venue::Backpack);
}

#[test]
fn mid_cycle_flip_is_blocked() {
    let mut reg = CycleLockRegistry::new();
    let open = make_decision(Venue::Pacifica, Venue::Backpack, 100.0);
    reg.enforce_decision("BTC", T0_MS, Some(&open), false);
    let flip = make_decision(Venue::Backpack, Venue::Pacifica, 100.0);
    let out = reg.enforce_decision("BTC", T0_MS + 500_000, Some(&flip), false);
    assert!(out.pair_flip_blocked);
    assert!(out.raw.proposed_was_blocked);
    let eff = out.effective.expect("should return locked decision");
    assert_eq!(eff.long_venue, Venue::Pacifica);
    assert_eq!(eff.short_venue, Venue::Backpack);
}

#[test]
fn mid_cycle_rebalance_to_different_pair_is_blocked() {
    let mut reg = CycleLockRegistry::new();
    let open = make_decision(Venue::Pacifica, Venue::Backpack, 100.0);
    reg.enforce_decision("BTC", T0_MS, Some(&open), false);
    let rebal = make_decision(Venue::Pacifica, Venue::Hyperliquid, 100.0);
    let out = reg.enforce_decision("BTC", T0_MS + 500_000, Some(&rebal), false);
    assert!(out.pair_flip_blocked, "pair rebalance must be blocked even with matching h_c");
    let eff = out.effective.unwrap();
    assert_eq!(eff.short_venue, Venue::Backpack);
}

#[test]
fn new_cycle_after_boundary_accepts_flip() {
    let mut reg = CycleLockRegistry::new();
    let open = make_decision(Venue::Pacifica, Venue::Backpack, 100.0);
    reg.enforce_decision("BTC", T0_MS, Some(&open), false);
    let flip = make_decision(Venue::Backpack, Venue::Pacifica, 150.0);
    let out = reg.enforce_decision(
        "BTC",
        T0_MS + (DEFAULT_CYCLE_SECONDS + 10) * 1000,
        Some(&flip),
        false,
    );
    assert!(out.opened_new_cycle);
    let eff = out.effective.unwrap();
    assert_eq!(eff.long_venue, Venue::Backpack);
    assert_eq!(f64::from_bits(eff.notional_usd), 150.0);
}

#[test]
fn no_proposal_holds_through_gap() {
    let mut reg = CycleLockRegistry::new();
    let open = make_decision(Venue::Pacifica, Venue::Backpack, 100.0);
    reg.enforce_decision("BTC", T0_MS, Some(&open), false);
    let out = reg.enforce_decision("BTC", T0_MS + 500_000, None, false);
    assert!(out.effective.is_some(), "should carry locked decision through the silent tick");
}

#[test]
fn emergency_override_passes_through() {
    let mut reg = CycleLockRegistry::new();
    let open = make_decision(Venue::Pacifica, Venue::Backpack, 100.0);
    reg.enforce_decision("BTC", T0_MS, Some(&open), false);
    let flip = make_decision(Venue::Backpack, Venue::Pacifica, 0.0);
    let out = reg.enforce_decision("BTC", T0_MS + 500_000, Some(&flip), true);
    assert!(out.raw.emergency_override_used);
    let eff = out.effective.unwrap();
    assert_eq!(eff.long_venue, Venue::Backpack);
}

#[test]
fn typestate_phase_is_locked_after_open() {
    let mut reg = CycleLockRegistry::new();
    let d = make_decision(Venue::Pacifica, Venue::Backpack, 100.0);
    assert!(!reg.is_typed_locked("BTC"), "pre-open phase should not be Locked");
    reg.enforce_decision("BTC", T0_MS, Some(&d), false);
    assert!(reg.is_typed_locked("BTC"), "post-open internal phase must be Locked");
    assert!(!reg.is_typed_emergency_override("BTC"));
}

#[test]
fn typestate_phase_transitions_to_emergency_override() {
    let mut reg = CycleLockRegistry::new();
    let open = make_decision(Venue::Pacifica, Venue::Backpack, 100.0);
    reg.enforce_decision("BTC", T0_MS, Some(&open), false);
    assert!(reg.is_typed_locked("BTC"));
    let flip = make_decision(Venue::Backpack, Venue::Pacifica, 50.0);
    reg.enforce_decision("BTC", T0_MS + 500_000, Some(&flip), true);
    assert!(reg.is_typed_emergency_override("BTC"), "override must move typed phase");
    assert!(!reg.is_typed_locked("BTC"));
}

#[test]
fn symbols_have_independent_locks() {
    let mut reg = CycleLockRegistry::new();
    let btc = make_decision(Venue::Pacifica, Venue::Backpack, 100.0);
    reg.enforce_decision("BTC", T0_MS, Some(&btc), false);
    assert!(reg.is_typed_locked("BTC"));
    assert!(!reg.is_typed_locked("ETH"));
    assert!(reg.locked_decision_for("ETH").is_none());
    let mut eth = make_decision(Venue::Lighter, Venue::Backpack, 200.0);
    eth.symbol = "ETH".to_string();
    reg.enforce_decision("ETH", T0_MS, Some(&eth), false);
    assert!(reg.is_typed_locked("ETH"));
    assert_eq!(reg.locked_decision_for("BTC").unwrap().long_venue, Venue::Pacifica);
    assert_eq!(reg.state_for("BTC").unwrap().h_c, 1);
    assert_eq!(reg.state_for("ETH").unwrap().h_c, -1);
}

#[test]
fn swapping_legs_negates_direction_and_is_caught() {
    let venues = [Venue::Pacifica, Venue::Backpack, Venue::Hyperliquid, Venue::Lighter];
    for a in venues {
        for b in venues {
            if a != b {
                let h = pair_to_h(a, b);
                assert_ne!(h, 0);
                assert_eq!(pair_to_h(b, a), -h);
                let state = open_cycle(1_700_000_000_000, h, 100.0f64.to_bits(), DEFAULT_CYCLE_SECONDS);
                assert!(would_violate_lock(Some(&state), 1_700_000_000_500, pair_to_h(b, a)));
                assert!(!would_violate_lock(Some(&state), 1_700_000_000_500, h));
            }
        }
    }
}

#[test]
fn zero_notional_opens_a_cycle_and_is_returned() {
    let mut reg = CycleLockRegistry::new();
    let d = make_decision(Venue::Pacifica, Venue::Backpack, 0.0);
    let out = reg.enforce_decision("BTC", T0_MS, Some(&d), false);
    assert!(out.opened_new_cycle);
    assert!(!out.pair_flip_blocked);
    assert_eq!(out.effective.as_ref().map(|e| e.notional_usd), Some(0.0f64.to_bits()));
    let s = reg.state_for("BTC").expect("cycle opened");
    assert_eq!(s.n_c, 0.0f64.to_bits());
    assert_eq!(s.h_c, 1);
    assert!(reg.is_typed_locked("BTC"));
    // the next tick in the cycle holds the zero-notional decision
    let bigger = make_decision(Venue::Pacifica, Venue::Backpack, 500.0);
    let out = reg.enforce_decision("BTC", T0_MS + 1_000, Some(&bigger), false);
    assert!(!out.opened_new_cycle);
    assert_eq!(out.effective.map(|e| e.notional_usd), Some(0.0f64.to_bits()));
}

#[test]
fn held_decision_carries_locked_notional_and_direction() {
    let mut reg = CycleLockRegistry::new();
    let d = make_decision(Venue::Lighter, Venue::Pacifica, 250.0);
    reg.enforce_decision("BTC", T0_MS, Some(&d), false);
    let out = reg.enforce_decision("BTC", T0_MS + 60_000, None, false);
    let eff = out.effective.expect("held");
    let s = reg.state_for("BTC").unwrap();
    assert_eq!(eff.notional_usd, s.n_c);
    assert_eq!(pair_to_h(eff.long_venue, eff.short_venue), s.h_c);
    assert_eq!(s.h_c, -1);
}
