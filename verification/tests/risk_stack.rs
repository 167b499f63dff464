use funding_bot::fsm_controller::Mode;
use funding_bot::risk::stack::{compose, funding_healthy, guard_reports, worst_guard, Composite};
use funding_bot::risk::{RiskDecision, RiskReason};

#[test]
fn pass_when_no_guard_fires() {
    assert_eq!(compose(&[0, 0, 0, 0, 0, 0], &[10_000, 10_000, 10_000, 10_000, 10_000, 10_000], false, Mode::KellySafe), Composite::Pass);
    assert_eq!(compose(&[0, 0, 0, 0, 0, 0], &[10_000, 10_000, 10_000, 10_000, 10_000, 10_000], false, Mode::Neutral), Composite::FsmReduce);
}

#[test]
fn kill_switch_dominates() {
    assert_eq!(compose(&[3, 0, 1, 0, 2, 0], &[0, 10_000, 5_000, 10_000, 0, 10_000], false, Mode::KellySafe), Composite::GuardFlatten(0));
    assert_eq!(compose(&[3, 0, 0, 0, 0, 0], &[0, 10_000, 10_000, 10_000, 10_000, 10_000], true, Mode::Robust), Composite::FsmFlatten);
}

#[test]
fn concentration_block_overrides_pass() {
    assert_eq!(compose(&[0, 0, 0, 0, 2, 0], &[10_000, 10_000, 10_000, 10_000, 0, 10_000], false, Mode::Neutral), Composite::GuardBlock(4));
}

#[test]
fn worst_is_last_of_highest_rank() {
    assert_eq!(worst_guard(&[1, 2, 0, 2, 1, 0], &[5_000, 0, 10_000, 0, 5_000, 10_000]), 3);
    assert_eq!(worst_guard(&[0, 0, 0, 0, 0, 0], &[10_000, 10_000, 10_000, 10_000, 10_000, 10_000]), 5);
    assert_eq!(
        compose(&[0, 1, 0, 1, 0, 0], &[10_000, 5_000, 10_000, 5_000, 10_000, 10_000], false, Mode::KellySafe),
        Composite::GuardReduce(3)
    );
}

#[test]
fn smallest_reduce_multiplier_wins() {
    // heartbeat reduces to 0.25, concentration to 0.5: the heartbeat wins
    let ranks = [0, 0, 1, 0, 1, 0];
    let mults = [10_000, 10_000, 2_500, 10_000, 5_000, 10_000];
    assert_eq!(worst_guard(&ranks, &mults), 2);
    assert_eq!(compose(&ranks, &mults, false, Mode::KellySafe), Composite::GuardReduce(2));
    // and the other way round
    let mults = [10_000, 10_000, 5_000, 10_000, 2_500, 10_000];
    assert_eq!(compose(&ranks, &mults, false, Mode::KellySafe), Composite::GuardReduce(4));
    // a block still outranks any reduce
    let ranks = [0, 0, 1, 2, 1, 0];
    let mults = [10_000, 10_000, 100, 0, 5_000, 10_000];
    assert_eq!(compose(&ranks, &mults, false, Mode::KellySafe), Composite::GuardBlock(3));
}

#[test]
fn reports_map_guards_to_layers() {
    let r = guard_reports(&[3, 2, 0, 3, 1, 2]);
    let got: Vec<(String, bool)> = r.into_iter().map(|x| (x.layer, x.red_flag)).collect();
    assert_eq!(
        got,
        vec![
            ("cvar".to_string(), true),
            ("entropic_ce".to_string(), false),
            ("ecv".to_string(), true),
            ("execution_chi2".to_string(), true),
        ]
    );
    assert!(!funding_healthy(&[3, 0, 0, 0, 0, 0]));
    assert!(funding_healthy(&[1, 0, 1, 0, 0, 0]));
}

#[test]
fn decision_helpers() {
    let r = RiskDecision::Reduce { size_multiplier_bps: 2_500, reason: RiskReason::KillSignal };
    assert!(!r.is_blocking());
    assert_eq!(r.size_multiplier_bps(), 2_500);
    assert_eq!(RiskDecision::Pass.size_multiplier_bps(), 10_000);
    let f = RiskDecision::Flatten { reason: RiskReason::KillFlagFile };
    assert!(f.is_blocking());
    assert_eq!(f.size_multiplier_bps(), 0);
    assert_eq!(f.severity_rank(), 3);
}

#[test]
fn two_blocking_guards_escalate_through_the_controller() {
    use_pipeline(&[0, 2, 0, 0, 2, 0], Composite::FsmFlatten);
    // one blocking guard: the block stands, the controller only goes Neutral
    use_pipeline(&[0, 0, 0, 0, 2, 0], Composite::GuardBlock(4));
    // a flattening guard flattens
    use_pipeline(&[0, 0, 3, 0, 0, 0], Composite::GuardFlatten(2));
    // nothing fires: pass
    use_pipeline(&[0, 0, 0, 0, 0, 0], Composite::Pass);
}

fn use_pipeline(ranks: &[u8; 6], expected: Composite) {
    let mults: Vec<u32> = ranks.iter().map(|r| match r { 0 => 10_000, 1 => 5_000, _ => 0 }).collect();
    let reports = guard_reports(ranks);
    let healthy = funding_healthy(ranks);
    let mut state = funding_bot::fsm_controller::FsmState::new();
    let d = funding_bot::fsm_controller::step(&mut state, 0, &reports, false, healthy, ranks[0] == 3);
    assert_eq!(compose(ranks, &mults, d.emergency_flatten, d.mode), expected);
}
