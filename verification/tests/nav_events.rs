use funding_bot::signal::oracle_divergence_risk_for;
use funding_bot::decision::PairDecision;
use funding_bot::nav::{
    charged_cost_fraction, classify_position_event, OpenPair, PositionEvent, FALLBACK_COST_FRACTION,
};
use funding_bot::scoring::{verdict_size_scale_bps, ForecastVerdict};
use funding_bot::venue::Venue;

fn decision(long: Venue, short: Venue, symbol: &str) -> PairDecision {
    PairDecision {
        long_venue: long,
        short_venue: short,
        symbol: symbol.to_string(),
        spread_annual: 0.1f64.to_bits(),
        cost_fraction: 0.001f64.to_bits(),
        net_annual: 0.099f64.to_bits(),
        notional_usd: 100.0f64.to_bits(),
        reason: String::new(),
        would_have_executed: true,
    }
}

#[test]
fn position_events_follow_the_pair() {
    let d = decision(Venue::Pacifica, Venue::Lighter, "BTC");
    let open = OpenPair::from_decision(&d);
    assert_eq!(classify_position_event(None, None), PositionEvent::Idle);
    assert_eq!(classify_position_event(Some(&d), None), PositionEvent::Opened);
    assert_eq!(classify_position_event(Some(&d), Some(&open)), PositionEvent::Held);
    let other = decision(Venue::Lighter, Venue::Pacifica, "BTC");
    assert_eq!(classify_position_event(Some(&other), Some(&open)), PositionEvent::Rebalanced);
    let other_sym = decision(Venue::Pacifica, Venue::Lighter, "ETH");
    assert_eq!(classify_position_event(Some(&other_sym), Some(&open)), PositionEvent::Rebalanced);
    assert_eq!(classify_position_event(None, Some(&open)), PositionEvent::HeldThroughGap);
}

#[test]
fn position_event_labels() {
    assert_eq!(PositionEvent::Opened.label(), "Opened");
    assert_eq!(PositionEvent::HeldThroughGap.label(), "HeldThroughGap");
    assert!(PositionEvent::Rebalanced.charges_cost());
    assert!(!PositionEvent::Held.charges_cost());
}

#[test]
fn verdict_size_scale_map() {
    assert_eq!(verdict_size_scale_bps(ForecastVerdict::Admit), 10_000);
    assert_eq!(verdict_size_scale_bps(ForecastVerdict::Reduce), 5_000);
    assert_eq!(verdict_size_scale_bps(ForecastVerdict::Reject), 0);
}

#[test]
fn oracle_divergence_classes() {
    assert_eq!(oracle_divergence_risk_for("XAU"), "structural");
    assert_eq!(oracle_divergence_risk_for("PAXG"), "structural");
    assert_eq!(oracle_divergence_risk_for("XAG"), "structural");
    assert_eq!(oracle_divergence_risk_for("BTC"), "minimal");
    assert_eq!(oracle_divergence_risk_for("xau"), "minimal");
    assert_eq!(Venue::Hyperliquid.key(), "hyperliquid");
    assert_eq!(Venue::Backpack.debug_name(), "Backpack");
}

#[test]
fn charged_cost_falls_back_to_ten_bps() {
    assert_eq!(charged_cost_fraction(0.0015f64.to_bits()), 0.0015f64.to_bits());
    assert_eq!(f64::from_bits(charged_cost_fraction(0.0f64.to_bits())), 10.0 * 1e-4);
    assert_eq!(f64::from_bits(charged_cost_fraction((-0.001f64).to_bits())), 0.001);
    assert_eq!(f64::from_bits(charged_cost_fraction(f64::NAN.to_bits())), 0.001);
    assert_eq!(f64::from_bits(charged_cost_fraction(f64::INFINITY.to_bits())), 0.001);
    assert_eq!(FALLBACK_COST_FRACTION, 0.001f64.to_bits());
}
