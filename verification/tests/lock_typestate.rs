use funding_bot::funding_cycle_lock::DEFAULT_CYCLE_SECONDS;
use funding_bot::lock_typestate::{FlipAttempt, HoldResult, LockError, TypestateLock, Unlocked};

fn bits(x: f64) -> u64 {
    x.to_bits()
}

#[test]
fn open_from_unlocked_succeeds_and_returns_locked() {
    let lock = TypestateLock::<Unlocked>::new();
    let locked = lock.open(1_700_000_000_000, 1, bits(100.0)).unwrap();
    assert_eq!(locked.direction(), 1);
    assert_eq!(f64::from_bits(locked.notional()), 100.0);
}

#[test]
fn open_rejects_zero_direction() {
    let lock = TypestateLock::<Unlocked>::new();
    assert!(matches!(lock.open(1000, 0, bits(100.0)), Err(LockError::InvalidDirection(0))));
}

#[test]
fn open_rejects_non_positive_notional() {
    let lock = TypestateLock::<Unlocked>::new();
    assert!(matches!(lock.open(1000, 1, bits(0.0)), Err(LockError::InvalidNotional(_))));
    let lock = TypestateLock::<Unlocked>::new();
    assert!(matches!(lock.open(1000, 1, bits(f64::NAN)), Err(LockError::InvalidNotional(_))));
}

#[test]
fn same_direction_try_open_returns_locked() {
    let lock = TypestateLock::<Unlocked>::new().open(1_700_000_000_000, 1, bits(100.0)).unwrap();
    let same = lock.try_open_same_pair(1);
    assert!(same.is_ok());
}

#[test]
fn flip_without_override_returns_flip_attempt_and_preserves_lock() {
    let lock = TypestateLock::<Unlocked>::new().open(1_700_000_000_000, 1, bits(100.0)).unwrap();
    let attempt = lock.try_open_same_pair(-1);
    match attempt {
        Err(FlipAttempt { locked_h, proposed_h, lock }) => {
            assert_eq!(locked_h, 1);
            assert_eq!(proposed_h, -1);
            assert_eq!(lock.direction(), 1);
        }
        _ => panic!("expected FlipAttempt"),
    }
}

#[test]
fn force_override_transitions_to_override_phase() {
    let lock = TypestateLock::<Unlocked>::new().open(1_700_000_000_000, 1, bits(100.0)).unwrap();
    let overr = lock.force_override(1_700_000_500_000, -1, bits(50.0)).unwrap();
    let unlocked = overr.close();
    let _ = unlocked.open(1_700_000_600_000, 1, bits(10.0)).unwrap();
}

#[test]
fn hold_tick_crossing_boundary_returns_unlocked() {
    let lock = TypestateLock::<Unlocked>::new().open(1_700_000_000_000, 1, bits(100.0)).unwrap();
    let later = 1_700_000_000_000 + (DEFAULT_CYCLE_SECONDS + 10) * 1000;
    match lock.hold_tick(later) {
        HoldResult::Expired(u) => {
            let _ = u.open(later, -1, bits(50.0)).unwrap();
        }
        _ => panic!("expected Expired after cycle boundary"),
    }
}

#[test]
fn hold_tick_within_cycle_stays_locked() {
    let lock = TypestateLock::<Unlocked>::new().open(1_700_000_000_000, 1, bits(100.0)).unwrap();
    match lock.hold_tick(1_700_000_100_000) {
        HoldResult::Held(l) => assert_eq!(l.direction(), 1),
        _ => panic!("expected Held"),
    }
}

#[test]
fn override_rejects_negative_notional() {
    let lock = TypestateLock::<Unlocked>::new().open(1_700_000_000_000, 1, bits(100.0)).unwrap();
    assert!(matches!(
        lock.force_override(1_700_000_000_500, -1, bits(-1.0)),
        Err(LockError::InvalidNotional(_))
    ));
}
