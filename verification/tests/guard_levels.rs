use funding_bot::risk::levels::{concentration_level, cvar_budget_level, drawdown_level, GuardLevel};
use funding_bot::scoring::{admission_verdict, hold_is_scored, regime_for, ForecastVerdict, Regime};

fn b(x: f64) -> u64 {
    x.to_bits()
}

#[test]
fn cvar_budget_rule() {
    // Budget 2% of 10_000 = 200.
    assert_eq!(cvar_budget_level(b(10_000.0), b(150.0), b(200.0), b(0.75)), GuardLevel::Pass);
    assert_eq!(cvar_budget_level(b(10_000.0), b(300.0), b(200.0), b(1.5)), GuardLevel::Reduce);
    assert_eq!(cvar_budget_level(b(10_000.0), b(500.0), b(200.0), b(2.5)), GuardLevel::Block);
    assert_eq!(cvar_budget_level(b(10_000.0), b(400.0), b(200.0), b(2.0)), GuardLevel::Block);
    assert_eq!(cvar_budget_level(b(0.0), b(1.0), b(0.0), b(f64::INFINITY)), GuardLevel::Block);
    assert_eq!(cvar_budget_level(b(f64::NAN), b(1.0), b(f64::NAN), b(f64::NAN)), GuardLevel::Block);
    assert_eq!(cvar_budget_level(b(-5.0), b(0.0), b(-0.1), b(-0.0)), GuardLevel::Block);
}

#[test]
fn drawdown_rule() {
    let stop = 0.01;
    assert_eq!(drawdown_level(b(0.004), b(stop), b(0.005)), GuardLevel::Pass);
    assert_eq!(drawdown_level(b(0.005), b(stop), b(0.005)), GuardLevel::Reduce);
    assert_eq!(drawdown_level(b(0.0099), b(stop), b(0.005)), GuardLevel::Reduce);
    assert_eq!(drawdown_level(b(0.01), b(stop), b(0.005)), GuardLevel::Flatten);
    assert_eq!(drawdown_level(b(0.5), b(0.0), b(0.0)), GuardLevel::Pass);
    assert_eq!(drawdown_level(b(0.5), b(f64::INFINITY), b(f64::INFINITY)), GuardLevel::Pass);
}

#[test]
fn concentration_rule() {
    assert_eq!(concentration_level(b(0.25), b(0.40), b(0.60)), GuardLevel::Pass);
    assert_eq!(concentration_level(b(0.40), b(0.40), b(0.60)), GuardLevel::Reduce);
    assert_eq!(concentration_level(b(0.5), b(0.40), b(0.60)), GuardLevel::Reduce);
    assert_eq!(concentration_level(b(0.60), b(0.40), b(0.60)), GuardLevel::Block);
    assert_eq!(concentration_level(b(1.0), b(0.40), b(0.60)), GuardLevel::Block);
}

#[test]
fn escalation_is_monotone_on_samples() {
    let rank = |l: GuardLevel| match l {
        GuardLevel::Pass => 0,
        GuardLevel::Reduce => 1,
        GuardLevel::Block => 2,
        GuardLevel::Flatten => 3,
    };
    let xs = [0.0, 0.003, 0.005, 0.007, 0.01, 0.2];
    for w in xs.windows(2) {
        assert!(rank(drawdown_level(b(w[0]), b(0.01), b(0.005))) <= rank(drawdown_level(b(w[1]), b(0.01), b(0.005))));
        assert!(rank(concentration_level(b(w[0] * 50.0), b(0.4), b(0.6))) <= rank(concentration_level(b(w[1] * 50.0), b(0.4), b(0.6))));
    }
}

#[test]
fn regime_rule() {
    assert_eq!(regime_for(49, Some(true)), Regime::Insufficient);
    assert_eq!(regime_for(50, Some(true)), Regime::Stationary);
    assert_eq!(regime_for(50, Some(false)), Regime::Drift);
    assert_eq!(regime_for(500, None), Regime::Drift);
}

#[test]
fn admission_rule() {
    assert!(hold_is_scored(b(168.0)));
    assert!(hold_is_scored(b(0.5)));
    assert!(!hold_is_scored(b(168.000001)));
    assert!(!hold_is_scored(b(f64::INFINITY)));
    assert!(!hold_is_scored(b(f64::NAN)));
    assert_eq!(admission_verdict(b(0.002), b(0.001), b(0.0005)), ForecastVerdict::Admit);
    assert_eq!(admission_verdict(b(0.001), b(0.001), b(0.0005)), ForecastVerdict::Admit);
    assert_eq!(admission_verdict(b(0.0007), b(0.001), b(0.0005)), ForecastVerdict::Reduce);
    assert_eq!(admission_verdict(b(0.0001), b(0.001), b(0.0005)), ForecastVerdict::Reject);
    assert_eq!(admission_verdict(b(f64::NAN), b(0.001), b(0.0005)), ForecastVerdict::Reject);
}
