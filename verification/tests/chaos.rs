use funding_bot::chaos::{failure_message, ChaosSchedule, FailureProfile, LatencyProfile};

#[test]
fn constant_latency_applies() {
    let mut c = ChaosSchedule::new(LatencyProfile::Constant(50), FailureProfile::Disabled);
    let idx = c.next_call();
    assert_eq!(c.next_latency(idx), 50);
    assert!(!c.should_fail(idx));
}

#[test]
fn uniform_latency_stays_in_bounds() {
    let mut c = ChaosSchedule::new(LatencyProfile::Uniform { min: 10, max: 30 }, FailureProfile::Disabled);
    for _ in 0..1000 {
        let idx = c.next_call();
        let d = c.next_latency(idx);
        assert!((10..=30).contains(&d), "out of range: {d}");
    }
}

#[test]
fn uniform_latency_matches_binary64_arithmetic() {
    let mut c = ChaosSchedule::with_seed(LatencyProfile::Uniform { min: 200, max: 400 }, FailureProfile::Disabled, 42);
    let mut s = 42u64;
    for i in 0..500u64 {
        s = s.wrapping_mul(6364136223846793005).wrapping_add(1442695040888963407);
        let u = (s >> 11) as f64 / (1u64 << 53) as f64;
        let expected = 200 + (u * 200u64 as f64) as u64;
        assert_eq!(c.next_latency(i), expected);
    }
}

#[test]
fn every_nth_failure_profile_triggers_on_schedule() {
    let mut c = ChaosSchedule::new(LatencyProfile::Disabled, FailureProfile::EveryNth { every: 3, start: 0 });
    let mut failures = 0;
    let mut successes = 0;
    for _ in 0..9 {
        let idx = c.next_call();
        if c.should_fail(idx) {
            failures += 1;
        } else {
            successes += 1;
        }
    }
    assert_eq!(failures, 3);
    assert_eq!(successes, 6);
}

#[test]
fn scripted_failure_profile_reproducible() {
    let mut c = ChaosSchedule::new(
        LatencyProfile::Disabled,
        FailureProfile::Scripted(vec![true, true, false, true, false]),
    );
    let outcomes: Vec<bool> = (0..5).map(|_| {
        let idx = c.next_call();
        !c.should_fail(idx)
    }).collect();
    assert_eq!(outcomes, vec![true, true, false, true, false]);
}

#[test]
fn no_chaos_passes_through() {
    let mut c = ChaosSchedule::new(LatencyProfile::Disabled, FailureProfile::Disabled);
    let idx = c.next_call();
    assert_eq!(c.next_latency(idx), 0);
    assert!(!c.should_fail(idx));
}

#[test]
fn sequence_latency_wraps() {
    let mut c = ChaosSchedule::new(LatencyProfile::Sequence(vec![5, 7, 9]), FailureProfile::Disabled);
    let got: Vec<u64> = (0..7u64).map(|i| c.next_latency(i)).collect();
    assert_eq!(got, vec![5, 7, 9, 5, 7, 9, 5]);
    let mut e = ChaosSchedule::new(LatencyProfile::Sequence(vec![]), FailureProfile::Disabled);
    assert_eq!(e.next_latency(3), 0);
}

#[test]
fn every_nth_waits_for_start() {
    let c = ChaosSchedule::pacifica_like();
    assert!(!c.should_fail(0));
    assert!(!c.should_fail(99));
    assert!(c.should_fail(100));
    assert!(!c.should_fail(101));
    assert!(c.should_fail(300));
    let z = ChaosSchedule::new(LatencyProfile::Disabled, FailureProfile::EveryNth { every: 0, start: 0 });
    assert!(!z.should_fail(0));
}

#[test]
fn failure_message_names_call() {
    assert_eq!(failure_message(17), "chaos: scripted failure on call #17");
}
