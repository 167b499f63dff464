//! Typed wrapper around the funding-cycle lock. The lifecycle phases
//! (`Unlocked`, `Locked`, `EmergencyOverride`) are distinct types, so an
//! illegal transition (closing an unlocked lock, re-opening a locked one)
//! does not compile; each transition consumes the lock and returns the lock
//! in its next phase. The markers have a private field, so no value of
//! them can be built outside this crate.

use std::marker::PhantomData;
use vstd::prelude::*;
use crate::binary64::{is_finite, is_positive, is_nonneg, spec_is_finite, spec_is_positive, spec_is_nonneg};
use crate::funding_cycle_lock::{
    cycle_index, enforce, spec_cycle_index, spec_enforce, spec_open_cycle, spec_state_ok, CycleState,
    DEFAULT_CYCLE_SECONDS,
};
use crate::lock_phase::Sealed;

verus! {

/// No cycle is open.
#[derive(Debug)]
pub struct Unlocked(());

/// A cycle is open and direction flips are refused.
#[derive(Debug)]
pub struct Locked(());

/// A cycle was forced open through an emergency override; the caller must
/// audit the breach.
#[derive(Debug)]
pub struct EmergencyOverride(());

impl Sealed for Unlocked {}

impl Sealed for Locked {}

impl Sealed for EmergencyOverride {}

/// A lifecycle phase of the typed lock.
pub trait Phase: Sealed {}

impl Phase for Unlocked {}

impl Phase for Locked {}

impl Phase for EmergencyOverride {}

/// Funding-cycle lock whose phase is part of its type.
#[derive(Debug)]
pub struct TypestateLock<P: Phase> {
    inner: Option<CycleState>,
    cycle_seconds: i64,
    _phase: PhantomData<P>,
}

impl<P: Phase> TypestateLock<P> {
    #[verifier::type_invariant]
    spec fn wf(self) -> bool {
        self.cycle_seconds > 0 && spec_state_ok(self.inner)
    }

    /// The underlying lock state.
    pub closed spec fn state(self) -> Option<CycleState> {
        self.inner
    }

    /// The cadence (seconds) this lock runs under.
    pub closed spec fn cadence(self) -> i64 {
        self.cycle_seconds
    }
}

/// Error of a typed-lock transition.
#[derive(Debug, Clone, Copy, PartialEq, Eq, Structural)]
pub enum LockError {
    /// The direction is not +1 or -1.
    InvalidDirection(i8),
    /// The notional (binary64 encoding) is not finite and positive (open), or
    /// not finite and non-negative (override).
    InvalidNotional(u64),
    /// The underlying lock failed to open a fresh cycle.
    FailedToOpen,
}

/// Result of holding a locked cycle for one more tick.
pub enum HoldResult {
    /// Still inside the locked cycle.
    Held(TypestateLock<Locked>),
    /// The cycle boundary was crossed; the lock is released.
    Expired(TypestateLock<Unlocked>),
}

/// A direction flip attempted without override. The lock is handed back
/// unchanged so the caller can keep holding.
#[derive(Debug)]
pub struct FlipAttempt {
    pub locked_h: i8,
    pub proposed_h: i8,
    pub lock: TypestateLock<Locked>,
}

/// Direction that may open a typed cycle: +1 or -1.
pub open spec fn spec_open_direction(h: i8) -> bool {
    h == 1 || h == -1
}

impl TypestateLock<Unlocked> {
    /// A new unlocked lock with the default hourly cadence.
    pub fn new() -> (r: Self)
        ensures
            r.state() is None,
            r.cadence() == DEFAULT_CYCLE_SECONDS,
    {
        TypestateLock { inner: None, cycle_seconds: DEFAULT_CYCLE_SECONDS, _phase: PhantomData }
    }

    /// A new unlocked lock with the given cadence in seconds.
    pub fn with_cycle_seconds(cycle_seconds: i64) -> (r: Self)
        requires
            cycle_seconds > 0,
        ensures
            r.state() is None,
            r.cadence() == cycle_seconds,
    {
        TypestateLock { inner: None, cycle_seconds, _phase: PhantomData }
    }

    /// Open a cycle at `now_ms` with direction `h` (+1 or -1) and positive
    /// finite notional `n`; a flat opening is refused.
    pub fn open(self, now_ms: i64, h: i8, n: u64) -> (r: Result<TypestateLock<Locked>, LockError>)
        ensures
            !spec_open_direction(h) ==> r == Err::<TypestateLock<Locked>, LockError>(
                LockError::InvalidDirection(h),
            ),
            spec_open_direction(h) && !(spec_is_finite(n) && spec_is_positive(n)) ==> r == Err::<
                TypestateLock<Locked>,
                LockError,
            >(LockError::InvalidNotional(n)),
            spec_open_direction(h) && spec_is_finite(n) && spec_is_positive(n) ==> (r matches Ok(l) && l.state()
                == Some(spec_open_cycle(now_ms as int, h, n, self.cadence())) && l.cadence() == self.cadence()),
    {
        proof {
            use_type_invariant(&self);
        }
        if !(h == 1 || h == -1) {
            return Err(LockError::InvalidDirection(h));
        }
        if !(is_finite(n) && is_positive(n)) {
            return Err(LockError::InvalidNotional(n));
        }
        let mut state: Option<CycleState> = None;
        let res = enforce(&mut state, now_ms, h, n, false, self.cycle_seconds);
        if !res.opened_new_cycle {
            return Err(LockError::FailedToOpen);
        }
        Ok(TypestateLock { inner: state, cycle_seconds: self.cycle_seconds, _phase: PhantomData })
    }
}

impl TypestateLock<Unlocked> {
    /// Lock a cycle that the raw lock has already opened: the state is
    /// wrapped as it is, with no check of direction or notional (the
    /// registry opens every cycle through the raw lock, flat or zero ones
    /// included, and records the result under the typed phase).
    pub(crate) fn lock_opened(self, state: CycleState) -> (r: TypestateLock<Locked>)
        requires
            state.cycle_seconds > 0,
        ensures
            r.state() == Some(state),
            r.cadence() == self.cadence(),
    {
        proof {
            use_type_invariant(&self);
        }
        TypestateLock { inner: Some(state), cycle_seconds: self.cycle_seconds, _phase: PhantomData }
    }
}

/// Index of the held cycle, or the smallest index when nothing is held.
pub open spec fn spec_held_index(state: Option<CycleState>) -> int {
    match state {
        Some(s) => s.cycle_index as int,
        None => i64::MIN as int,
    }
}

impl TypestateLock<Locked> {
    /// Hold for one more tick at `now_ms`: once the clock has moved past the
    /// locked cycle the lock is released, otherwise it is held unchanged.
    pub fn hold_tick(self, now_ms: i64) -> (r: HoldResult)
        ensures
            spec_cycle_index(now_ms as int, self.cadence() as int) > spec_held_index(self.state())
                ==> (r matches HoldResult::Expired(u) && u.state() is None && u.cadence()
                == self.cadence()),
            spec_cycle_index(now_ms as int, self.cadence() as int) <= spec_held_index(self.state())
                ==> (r matches HoldResult::Held(l) && l == self),
    {
        proof {
            use_type_invariant(&self);
        }
        let cur_idx = match &self.inner {
            Some(s) => s.cycle_index,
            None => i64::MIN,
        };
        let now_idx = cycle_index(now_ms, self.cycle_seconds);
        if now_idx > cur_idx {
            HoldResult::Expired(
                TypestateLock { inner: None, cycle_seconds: self.cycle_seconds, _phase: PhantomData },
            )
        } else {
            HoldResult::Held(self)
        }
    }

    /// Confirm direction `h` on the locked cycle: the lock comes back as it
    /// was when `h` equals the locked direction, and as a flip attempt otherwise.
    pub fn try_open_same_pair(self, h: i8) -> (r: Result<Self, FlipAttempt>)
        ensures
            h == self.spec_direction() ==> r == Ok::<Self, FlipAttempt>(self),
            h != self.spec_direction() ==> r == Err::<Self, FlipAttempt>(
                FlipAttempt { locked_h: self.spec_direction(), proposed_h: h, lock: self },
            ),
    {
        let locked_h = self.direction();
        if h == locked_h {
            Ok(self)
        } else {
            Err(FlipAttempt { locked_h, proposed_h: h, lock: self })
        }
    }

    /// Force a new direction through an emergency override. The stored cycle
    /// is kept as it was; only the phase changes.
    pub fn force_override(self, now_ms: i64, h: i8, n: u64) -> (r: Result<TypestateLock<EmergencyOverride>, LockError>)
        ensures
            !spec_open_direction(h) ==> r == Err::<TypestateLock<EmergencyOverride>, LockError>(
                LockError::InvalidDirection(h),
            ),
            spec_open_direction(h) && !(spec_is_finite(n) && spec_is_nonneg(n)) ==> r == Err::<
                TypestateLock<EmergencyOverride>,
                LockError,
            >(LockError::InvalidNotional(n)),
            spec_open_direction(h) && spec_is_finite(n) && spec_is_nonneg(n) ==> (r matches Ok(l) && l.state()
                == self.state() && l.cadence() == self.cadence()),
    {
        proof {
            use_type_invariant(&self);
        }
        if !(h == 1 || h == -1) {
            return Err(LockError::InvalidDirection(h));
        }
        if !(is_finite(n) && is_nonneg(n)) {
            return Err(LockError::InvalidNotional(n));
        }
        let mut state = self.inner;
        let _res = enforce(&mut state, now_ms, h, n, true, self.cycle_seconds);
        Ok(TypestateLock { inner: state, cycle_seconds: self.cycle_seconds, _phase: PhantomData })
    }

    /// Locked direction (0 when nothing is held).
    pub open spec fn spec_direction(self) -> i8 {
        match self.state() {
            Some(s) => s.h_c,
            None => 0,
        }
    }

    /// Locked direction.
    pub fn direction(&self) -> (r: i8)
        ensures
            r == self.spec_direction(),
    {
        match &self.inner {
            Some(s) => s.h_c,
            None => 0,
        }
    }

    /// Locked notional (binary64 encoding; zero when nothing is held).
    pub fn notional(&self) -> (r: u64)
        ensures
            r == match self.state() {
                Some(s) => s.n_c,
                None => 0u64,
            },
    {
        match &self.inner {
            Some(s) => s.n_c,
            None => 0,
        }
    }

    /// Index of the locked cycle (0 when nothing is held).
    pub fn cycle_index(&self) -> (r: i64)
        ensures
            r == match self.state() {
                Some(s) => s.cycle_index,
                None => 0i64,
            },
    {
        match &self.inner {
            Some(s) => s.cycle_index,
            None => 0,
        }
    }
}

impl TypestateLock<EmergencyOverride> {
    /// Close an audited override: back to `Unlocked` under the same cadence.
    pub fn close(self) -> (r: TypestateLock<Unlocked>)
        ensures
            r.state() is None,
            r.cadence() == self.cadence(),
    {
        proof {
            use_type_invariant(&self);
        }
        TypestateLock { inner: None, cycle_seconds: self.cycle_seconds, _phase: PhantomData }
    }
}

} // verus!
