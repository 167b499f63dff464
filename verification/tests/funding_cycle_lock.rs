use funding_bot::funding_cycle_lock::{
    cycle_index, enforce, is_locked, is_valid_direction, ms_to_cycle_end, open_cycle,
    would_violate_lock, DEFAULT_CYCLE_SECONDS,
};

const T0_S: i64 = 1_700_000_000;
const T0_MS: i64 = T0_S * 1000;
const CYCLE: i64 = DEFAULT_CYCLE_SECONDS;

fn bits(x: f64) -> u64 {
    x.to_bits()
}

#[test]
fn cycle_index_floors() {
    assert_eq!(cycle_index(T0_MS, CYCLE), T0_S / CYCLE);
    assert_eq!(cycle_index(T0_MS + 1000, CYCLE), T0_S / CYCLE);
    assert_eq!(cycle_index(T0_MS + CYCLE * 1000, CYCLE), 1 + T0_S / CYCLE);
}

#[test]
fn seconds_to_end_counts_down() {
    let t_start_ms = (T0_S / CYCLE) * CYCLE * 1000;
    assert_eq!(ms_to_cycle_end(t_start_ms, CYCLE), CYCLE * 1000);
    assert_eq!(ms_to_cycle_end(t_start_ms + 1_000_000, CYCLE), (CYCLE - 1000) * 1000);
}

#[test]
fn is_locked_none_state_is_false() {
    assert!(!is_locked(None, T0_MS));
}

#[test]
fn open_cycle_records_index() {
    let aligned_ms = (T0_S / CYCLE) * CYCLE * 1000;
    let s = open_cycle(aligned_ms, 1, bits(100.0), CYCLE);
    assert_eq!(s.h_c, 1);
    assert_eq!(f64::from_bits(s.n_c), 100.0);
    assert_eq!(s.cycle_index, cycle_index(aligned_ms, CYCLE));
    assert!(is_locked(Some(&s), aligned_ms));
    assert!(is_locked(Some(&s), aligned_ms + (CYCLE - 1) * 1000));
    assert!(!is_locked(Some(&s), aligned_ms + (CYCLE + 1) * 1000));
}

#[test]
fn enforce_opens_cycle_when_none() {
    let mut state = None;
    let r = enforce(&mut state, T0_MS, 1, bits(100.0), false, CYCLE);
    assert_eq!(r.h_eff, 1);
    assert_eq!(f64::from_bits(r.n_eff), 100.0);
    assert!(r.opened_new_cycle);
    assert!(!r.proposed_was_blocked);
    assert!(state.is_some());
}

#[test]
fn enforce_holds_locked_direction() {
    let mut state = Some(open_cycle(T0_MS, 1, bits(100.0), CYCLE));
    let r = enforce(&mut state, T0_MS + 500_000, -1, bits(200.0), false, CYCLE);
    assert_eq!(r.h_eff, 1);
    assert_eq!(f64::from_bits(r.n_eff), 100.0);
    assert!(!r.opened_new_cycle);
    assert!(r.proposed_was_blocked);
}

#[test]
fn enforce_reopens_after_cycle_boundary() {
    let mut state = Some(open_cycle(T0_MS, 1, bits(100.0), CYCLE));
    let later = T0_MS + (CYCLE + 10) * 1000;
    let r = enforce(&mut state, later, -1, bits(200.0), false, CYCLE);
    assert_eq!(r.h_eff, -1);
    assert_eq!(f64::from_bits(r.n_eff), 200.0);
    assert!(r.opened_new_cycle);
    assert!(!r.proposed_was_blocked);
    assert_eq!(state.as_ref().unwrap().h_c, -1);
}

#[test]
fn enforce_emergency_override_passes_through() {
    let mut state = Some(open_cycle(T0_MS, 1, bits(100.0), CYCLE));
    let r = enforce(&mut state, T0_MS + 500_000, -1, bits(0.0), true, CYCLE);
    assert_eq!(r.h_eff, -1);
    assert_eq!(f64::from_bits(r.n_eff), 0.0);
    assert!(r.emergency_override_used);
    assert!(state.is_some());
}

#[test]
fn would_violate_lock_detects_flip() {
    let s = open_cycle(T0_MS, 1, bits(100.0), CYCLE);
    assert!(!would_violate_lock(Some(&s), T0_MS + 100_000, 1));
    assert!(would_violate_lock(Some(&s), T0_MS + 100_000, -1));
    assert!(would_violate_lock(Some(&s), T0_MS + 100_000, 0));
}

#[test]
fn would_violate_lock_false_when_no_state() {
    assert!(!would_violate_lock(None, T0_MS, 1));
}

#[test]
fn valid_directions_are_minus_one_zero_one() {
    assert!(is_valid_direction(-1));
    assert!(is_valid_direction(0));
    assert!(is_valid_direction(1));
    assert!(!is_valid_direction(2));
    assert!(!is_valid_direction(-2));
}

#[test]
fn cycle_index_floors_before_epoch() {
    assert_eq!(cycle_index(-1, CYCLE), -1);
    assert_eq!(cycle_index(-CYCLE * 1000, CYCLE), -1);
    assert_eq!(cycle_index(-CYCLE * 1000 - 1, CYCLE), -2);
}

#[test]
fn lock_holds_for_whole_cycle_then_releases() {
    let start = (T0_S / CYCLE) * CYCLE * 1000;
    let s = open_cycle(start + 123_456, -1, bits(5.0), CYCLE);
    assert!(is_locked(Some(&s), start));
    assert!(is_locked(Some(&s), start + CYCLE * 1000 - 1));
    assert!(!is_locked(Some(&s), start + CYCLE * 1000));
    assert!(!is_locked(Some(&s), start - 1));
}

#[test]
fn enforce_repeat_in_cycle_is_stable() {
    let mut state = None;
    let first = enforce(&mut state, T0_MS, 1, bits(100.0), false, CYCLE);
    let again = enforce(&mut state, T0_MS + 1000, 1, bits(100.0), false, CYCLE);
    assert_eq!(first.h_eff, again.h_eff);
    assert_eq!(first.n_eff, again.n_eff);
    assert!(!again.opened_new_cycle);
    assert!(!again.proposed_was_blocked);
}

#[test]
fn cycle_index_never_decreases_over_time() {
    let mut prev = cycle_index(-7_200_001, CYCLE);
    for t in [-3_600_000, -1, 0, 1, 3_599_999, 3_600_000, T0_MS, T0_MS + 1] {
        let cur = cycle_index(t, CYCLE);
        assert!(cur >= prev, "cycle_index({t}) = {cur} < {prev}");
        prev = cur;
    }
    assert_eq!(cycle_index(-1, CYCLE), -1);
    assert_eq!(cycle_index(3_599_999, CYCLE), 0);
    assert_eq!(cycle_index(3_600_000, CYCLE), 1);
}
