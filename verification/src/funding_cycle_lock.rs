//! Funding-cycle lock: while a funding cycle is open, the direction and
//! notional chosen when it opened are the only ones the bot may act on.
//! Only an explicit emergency override bypasses the lock.
//!
//! Time is unix milliseconds; a cycle index is the floor of the time divided
//! by the cycle length. Notionals are binary64 encodings (see `binary64`).

use vstd::prelude::*;
use vstd::arithmetic::div_mod::*;
use crate::binary64::{spec_is_nonneg, spec_num_eq, num_eq};

verus! {

/// Default funding cycle cadence in seconds.
pub const DEFAULT_CYCLE_SECONDS: i64 = 3600;

/// A direction is one of -1 (short), 0 (flat), +1 (long funding leg).
pub open spec fn spec_valid_direction(h: i8) -> bool {
    -1 <= h <= 1
}

/// Valid direction values: -1, 0, +1.
pub fn is_valid_direction(h: i8) -> (r: bool)
    ensures
        r == spec_valid_direction(h),
{
    -1 <= h && h <= 1
}

/// Snapshot of the currently locked cycle.
#[derive(Clone, Copy, Debug, PartialEq, Eq, Structural)]
pub struct CycleState {
    /// Index of the cycle in which the lock was opened.
    pub cycle_index: i64,
    /// Locked funding-leg direction in {-1, 0, +1}.
    pub h_c: i8,
    /// Locked target notional in USD (binary64 encoding).
    pub n_c: u64,
    /// Unix milliseconds at which the cycle was opened.
    pub opened_at_ms: i64,
    /// Cadence (seconds) this cycle was opened under.
    pub cycle_seconds: i64,
}

/// Cycle index of unix time `t_ms` for a cadence of `cycle_seconds`:
/// the floor of `t_ms / (1000 * cycle_seconds)`.
pub open spec fn spec_cycle_index(t_ms: int, cycle_seconds: int) -> int {
    t_ms / (1000 * cycle_seconds)
}

proof fn lemma_nested_div(m: int, cs: int)
    requires
        m >= 0,
        cs > 0,
    ensures
        (m / 1000) / cs == m / (1000 * cs),
{
    lemma_div_denominator(m, 1000, cs);
}

proof fn lemma_floor_negative(t: int, d: int)
    requires
        t < 0,
        d > 0,
    ensures
        t / d == -((-(t + 1)) / d) - 1,
{
    let m = -(t + 1);
    let q = m / d;
    let r = m % d;
    lemma_fundamental_div_mod(m, d);
    lemma_mod_bound(m, d);
    // t = -m - 1 = -(q*d + r) - 1 = (-q - 1) * d + (d - 1 - r)
    assert(t == (-q - 1) * d + (d - 1 - r)) by (nonlinear_arith)
        requires
            m == d * q + r,
            t == -m - 1,
    ;
    lemma_fundamental_div_mod_converse(t, d, -q - 1, d - 1 - r);
}

/// Integer funding cycle index for unix time `t_ms` (milliseconds).
pub fn cycle_index(t_ms: i64, cycle_seconds: i64) -> (r: i64)
    requires
        cycle_seconds > 0,
    ensures
        r == spec_cycle_index(t_ms as int, cycle_seconds as int),
{
    let cs = cycle_seconds as u64;
    if t_ms >= 0 {
        let m = t_ms as u64;
        let q = m / 1000 / cs;
        proof {
            lemma_nested_div(m as int, cs as int);
            lemma_div_pos_is_pos(m as int, 1000);
            lemma_div_is_ordered_by_denominator(m as int, 1, 1000);
            lemma_div_is_ordered_by_denominator((m / 1000) as int, 1, cs as int);
        }
        q as i64
    } else {
        let m = (-(t_ms + 1)) as u64;
        let q = m / 1000 / cs;
        proof {
            lemma_nested_div(m as int, cs as int);
            lemma_floor_negative(t_ms as int, 1000 * cs as int);
            lemma_div_is_ordered_by_denominator(m as int, 1, 1000);
            lemma_div_is_ordered_by_denominator((m / 1000) as int, 1, cs as int);
        }
        -(q as i64) - 1
    }
}

/// Milliseconds remaining until the next cycle boundary after `t_ms`.
pub open spec fn spec_ms_to_cycle_end(t_ms: int, cycle_seconds: int) -> int {
    1000 * cycle_seconds - t_ms % (1000 * cycle_seconds)
}

/// Milliseconds remaining until the next cycle boundary (in `1..=cycle length`).
pub fn ms_to_cycle_end(t_ms: i64, cycle_seconds: i64) -> (r: i64)
    requires
        0 < cycle_seconds <= i64::MAX / 1000,
    ensures
        r == spec_ms_to_cycle_end(t_ms as int, cycle_seconds as int),
        0 < r <= 1000 * cycle_seconds,
{
    let len = cycle_seconds * 1000;
    let idx = cycle_index(t_ms, cycle_seconds);
    proof {
        let t = t_ms as int;
        let l = len as int;
        lemma_fundamental_div_mod(t, l);
        lemma_mod_bound(t, l);
        assert(idx as int == t / l);
        assert(idx as int * l == t - t % l) by (nonlinear_arith)
            requires
                t == l * (t / l) + t % l,
                idx as int == t / l,
        ;
    }
    let base = idx as i128 * len as i128;
    let rem = (t_ms as i128 - base) as i64;
    len - rem
}

/// True iff there is an open cycle and `now_ms` still lies in it.
pub open spec fn spec_is_locked(state: Option<CycleState>, now_ms: int) -> bool {
    match state {
        None => false,
        Some(s) => spec_cycle_index(now_ms, s.cycle_seconds as int) == s.cycle_index,
    }
}

/// A stored cycle was opened under a positive cadence.
pub open spec fn spec_state_ok(state: Option<CycleState>) -> bool {
    match state {
        None => true,
        Some(s) => s.cycle_seconds > 0,
    }
}

/// True iff there is an open cycle and `now_ms` still lies in it.
pub fn is_locked(state: Option<&CycleState>, now_ms: i64) -> (r: bool)
    requires
        match state {
            None => true,
            Some(s) => s.cycle_seconds > 0,
        },
    ensures
        r == spec_is_locked(
            match state {
                None => None,
                Some(s) => Some(*s),
            },
            now_ms as int,
        ),
{
    match state {
        None => false,
        Some(s) => cycle_index(now_ms, s.cycle_seconds) == s.cycle_index,
    }
}

/// The state that opening a cycle at `now_ms` produces.
pub open spec fn spec_open_cycle(now_ms: int, h_c: i8, n_c: u64, cycle_seconds: i64) -> CycleState {
    CycleState {
        cycle_index: spec_cycle_index(now_ms, cycle_seconds as int) as i64,
        h_c,
        n_c,
        opened_at_ms: now_ms as i64,
        cycle_seconds,
    }
}

/// Open a new locked cycle at `now_ms` with direction `h_c` and notional `n_c`.
pub fn open_cycle(now_ms: i64, h_c: i8, n_c: u64, cycle_seconds: i64) -> (r: CycleState)
    requires
        spec_valid_direction(h_c),
        spec_is_nonneg(n_c),
        cycle_seconds > 0,
    ensures
        r == spec_open_cycle(now_ms as int, h_c, n_c, cycle_seconds),
        spec_is_locked(Some(r), now_ms as int),
{
    CycleState {
        cycle_index: cycle_index(now_ms, cycle_seconds),
        h_c,
        n_c,
        opened_at_ms: now_ms,
        cycle_seconds,
    }
}

/// Result of an `enforce` call: the values the caller must act on.
#[derive(Clone, Copy, Debug, PartialEq, Eq, Structural)]
pub struct EnforceResult {
    /// Effective direction.
    pub h_eff: i8,
    /// Effective notional (binary64 encoding).
    pub n_eff: u64,
    /// The proposal differed from the locked values and was overridden by the lock.
    pub proposed_was_blocked: bool,
    /// This call opened a new cycle.
    pub opened_new_cycle: bool,
    /// An emergency override bypassed an active lock whose values differed.
    pub emergency_override_used: bool,
}

/// The proposal differs from the locked values (direction, or notional by
/// numeric comparison).
pub open spec fn spec_differs(s: CycleState, h: i8, n: u64) -> bool {
    s.h_c != h || !spec_num_eq(s.n_c, n)
}

/// What `enforce` does: the new lock state and the result handed back.
pub open spec fn spec_enforce(
    state: Option<CycleState>,
    now_ms: int,
    proposed_h: i8,
    proposed_n: u64,
    emergency_override: bool,
    cycle_seconds: i64,
) -> (Option<CycleState>, EnforceResult) {
    if emergency_override {
        (
            state,
            EnforceResult {
                h_eff: proposed_h,
                n_eff: proposed_n,
                proposed_was_blocked: false,
                opened_new_cycle: false,
                emergency_override_used: spec_is_locked(state, now_ms) && spec_differs(
                    state.unwrap(),
                    proposed_h,
                    proposed_n,
                ),
            },
        )
    } else if !spec_is_locked(state, now_ms) {
        (
            Some(spec_open_cycle(now_ms, proposed_h, proposed_n, cycle_seconds)),
            EnforceResult {
                h_eff: proposed_h,
                n_eff: proposed_n,
                proposed_was_blocked: false,
                opened_new_cycle: true,
                emergency_override_used: false,
            },
        )
    } else {
        let s = state.unwrap();
        (
            state,
            EnforceResult {
                h_eff: s.h_c,
                n_eff: s.n_c,
                proposed_was_blocked: spec_differs(s, proposed_h, proposed_n),
                opened_new_cycle: false,
                emergency_override_used: false,
            },
        )
    }
}

/// What `enforce` needs of its inputs (any other input is a caller error):
/// a valid direction, a non-negative notional, a stored state opened under a
/// positive cadence, and a positive cadence whenever a new cycle is opened.
pub open spec fn spec_enforce_ok(
    state: Option<CycleState>,
    now_ms: int,
    proposed_h: i8,
    proposed_n: u64,
    emergency_override: bool,
    cycle_seconds: i64,
) -> bool {
    &&& spec_valid_direction(proposed_h)
    &&& spec_is_nonneg(proposed_n)
    &&& spec_state_ok(state)
    &&& (!emergency_override && !spec_is_locked(state, now_ms)) ==> cycle_seconds > 0
}

/// Apply the cycle lock to a proposed `(direction, notional)` at `now_ms`.
///
/// 1. Emergency override: the proposal passes through; the state is untouched.
/// 2. No active lock (none stored, or its cycle has ended): a new cycle opens
///    at the proposal, which is returned.
/// 3. Active lock: the locked values are returned; the proposal is ignored.
pub fn enforce(
    state: &mut Option<CycleState>,
    now_ms: i64,
    proposed_h: i8,
    proposed_n: u64,
    emergency_override: bool,
    cycle_seconds: i64,
) -> (r: EnforceResult)
    requires
        spec_enforce_ok(*old(state), now_ms as int, proposed_h, proposed_n, emergency_override, cycle_seconds),
    ensures
        (*final(state), r) == spec_enforce(
            *old(state),
            now_ms as int,
            proposed_h,
            proposed_n,
            emergency_override,
            cycle_seconds,
        ),
        spec_state_ok(*final(state)),
{
    if emergency_override {
        let was_locked = is_locked(state.as_ref(), now_ms);
        let used = match state {
            Some(s) => was_locked && (s.h_c != proposed_h || !num_eq(s.n_c, proposed_n)),
            None => false,
        };
        return EnforceResult {
            h_eff: proposed_h,
            n_eff: proposed_n,
            proposed_was_blocked: false,
            opened_new_cycle: false,
            emergency_override_used: used,
        };
    }
    if !is_locked(state.as_ref(), now_ms) {
        let new_state = open_cycle(now_ms, proposed_h, proposed_n, cycle_seconds);
        *state = Some(new_state);
        return EnforceResult {
            h_eff: proposed_h,
            n_eff: proposed_n,
            proposed_was_blocked: false,
            opened_new_cycle: true,
            emergency_override_used: false,
        };
    }
    match state {
        Some(s) => {
            let differs = s.h_c != proposed_h || !num_eq(s.n_c, proposed_n);
            EnforceResult {
                h_eff: s.h_c,
                n_eff: s.n_c,
                proposed_was_blocked: differs,
                opened_new_cycle: false,
                emergency_override_used: false,
            }
        },
        None => {
            // is_locked is false on an empty state, so this arm is unreachable.
            EnforceResult {
                h_eff: proposed_h,
                n_eff: proposed_n,
                proposed_was_blocked: false,
                opened_new_cycle: false,
                emergency_override_used: false,
            }
        },
    }
}

/// A direction change would be blocked by the lock right now.
pub open spec fn spec_would_violate_lock(state: Option<CycleState>, now_ms: int, proposed_h: i8) -> bool {
    spec_is_locked(state, now_ms) && proposed_h != state.unwrap().h_c
}

/// True if moving to direction `proposed_h` would be blocked by the lock now
/// (any change of the locked direction counts, including to or from flat).
pub fn would_violate_lock(state: Option<&CycleState>, now_ms: i64, proposed_h: i8) -> (r: bool)
    requires
        match state {
            None => true,
            Some(s) => s.cycle_seconds > 0,
        },
    ensures
        r == spec_would_violate_lock(
            match state {
                None => None,
                Some(s) => Some(*s),
            },
            now_ms as int,
            proposed_h,
        ),
{
    if !is_locked(state, now_ms) {
        return false;
    }
    match state {
        Some(s) => proposed_h != s.h_c,
        None => false,
    }
}


/// While a cycle is open, a non-override `enforce` hands back the locked
/// direction and notional, whatever was proposed, and leaves the lock as it is.
pub proof fn lemma_lock_holds_within_cycle(
    state: Option<CycleState>,
    now_ms: int,
    proposed_h: i8,
    proposed_n: u64,
    cycle_seconds: i64,
)
    requires
        spec_is_locked(state, now_ms),
    ensures
        ({
            let (next, r) = spec_enforce(state, now_ms, proposed_h, proposed_n, false, cycle_seconds);
            &&& next == state
            &&& r.h_eff == state.unwrap().h_c
            &&& r.n_eff == state.unwrap().n_c
            &&& !r.opened_new_cycle
            &&& r.proposed_was_blocked == spec_differs(state.unwrap(), proposed_h, proposed_n)
        }),
{
}

/// `would_violate_lock` says exactly whether a non-override `enforce` would
/// hand back a direction other than the proposed one.
pub proof fn lemma_would_violate_iff_direction_overridden(
    state: Option<CycleState>,
    now_ms: int,
    proposed_h: i8,
    proposed_n: u64,
    cycle_seconds: i64,
)
    ensures
        spec_would_violate_lock(state, now_ms, proposed_h) == (spec_enforce(
            state,
            now_ms,
            proposed_h,
            proposed_n,
            false,
            cycle_seconds,
        ).1.h_eff != proposed_h),
{
}

/// After a non-override `enforce`, a cycle is always open at that instant.
pub proof fn lemma_enforce_leaves_cycle_open(
    state: Option<CycleState>,
    now_ms: int,
    proposed_h: i8,
    proposed_n: u64,
    cycle_seconds: i64,
)
    requires
        spec_state_ok(state),
        !spec_is_locked(state, now_ms) ==> cycle_seconds > 0,
        i64::MIN <= now_ms <= i64::MAX,
    ensures
        spec_is_locked(spec_enforce(state, now_ms, proposed_h, proposed_n, false, cycle_seconds).0, now_ms),
{
    if !spec_is_locked(state, now_ms) {
        lemma_cycle_index_bounds(now_ms, cycle_seconds as int);
    }
}

/// An emergency override never changes the stored lock.
pub proof fn lemma_override_keeps_state(
    state: Option<CycleState>,
    now_ms: int,
    proposed_h: i8,
    proposed_n: u64,
    cycle_seconds: i64,
)
    ensures
        spec_enforce(state, now_ms, proposed_h, proposed_n, true, cycle_seconds).0 == state,
        spec_enforce(state, now_ms, proposed_h, proposed_n, true, cycle_seconds).1.h_eff == proposed_h,
        spec_enforce(state, now_ms, proposed_h, proposed_n, true, cycle_seconds).1.n_eff == proposed_n,
{
}

/// Repeating the same non-override call at the same instant hands back the
/// same effective values and opens nothing new the second time.
pub proof fn lemma_enforce_repeat_is_stable(
    state: Option<CycleState>,
    now_ms: int,
    proposed_h: i8,
    proposed_n: u64,
    cycle_seconds: i64,
)
    requires
        spec_state_ok(state),
        !spec_is_locked(state, now_ms) ==> cycle_seconds > 0,
        i64::MIN <= now_ms <= i64::MAX,
    ensures
        ({
            let (s1, r1) = spec_enforce(state, now_ms, proposed_h, proposed_n, false, cycle_seconds);
            let (s2, r2) = spec_enforce(s1, now_ms, proposed_h, proposed_n, false, cycle_seconds);
            &&& s2 == s1
            &&& r2.h_eff == r1.h_eff
            &&& r2.n_eff == r1.n_eff
            &&& !r2.opened_new_cycle
        }),
{
    lemma_enforce_leaves_cycle_open(state, now_ms, proposed_h, proposed_n, cycle_seconds);
}

/// Once the clock has left the locked cycle, a non-override `enforce` opens a
/// new cycle at the proposal (a direction flip is accepted at the boundary).
pub proof fn lemma_new_cycle_accepts_proposal(
    state: Option<CycleState>,
    now_ms: int,
    proposed_h: i8,
    proposed_n: u64,
    cycle_seconds: i64,
)
    requires
        state is Some,
        spec_cycle_index(now_ms, state.unwrap().cycle_seconds as int) != state.unwrap().cycle_index,
    ensures
        ({
            let (next, r) = spec_enforce(state, now_ms, proposed_h, proposed_n, false, cycle_seconds);
            &&& r.opened_new_cycle
            &&& r.h_eff == proposed_h
            &&& r.n_eff == proposed_n
            &&& next == Some(spec_open_cycle(now_ms, proposed_h, proposed_n, cycle_seconds))
        }),
{
}

/// The locked window is an interval: a cycle locked at two instants is locked
/// at every instant between them.
pub proof fn lemma_lock_window_is_interval(state: Option<CycleState>, t1: int, t2: int, t3: int)
    requires
        spec_state_ok(state),
        t1 <= t2 <= t3,
        spec_is_locked(state, t1),
        spec_is_locked(state, t3),
    ensures
        spec_is_locked(state, t2),
{
    let d = 1000 * state.unwrap().cycle_seconds as int;
    lemma_div_is_ordered(t1, t2, d);
    lemma_div_is_ordered(t2, t3, d);
}

/// The cycle index never decreases as time moves forward.
pub proof fn lemma_cycle_index_monotone(t1: int, t2: int, cycle_seconds: int)
    requires
        cycle_seconds > 0,
        t1 <= t2,
    ensures
        spec_cycle_index(t1, cycle_seconds) <= spec_cycle_index(t2, cycle_seconds),
{
    lemma_div_is_ordered(t1, t2, 1000 * cycle_seconds);
}

proof fn lemma_cycle_index_bounds(t: int, cycle_seconds: int)
    requires
        cycle_seconds > 0,
        i64::MIN <= t <= i64::MAX,
    ensures
        i64::MIN <= spec_cycle_index(t, cycle_seconds) <= i64::MAX,
{
    let d = 1000 * cycle_seconds;
    if t >= 0 {
        lemma_div_pos_is_pos(t, d);
        lemma_div_is_ordered_by_denominator(t, 1, d);
    } else {
        lemma_floor_negative(t, d);
        lemma_div_pos_is_pos(-(t + 1), d);
        lemma_div_is_ordered_by_denominator(-(t + 1), 1, d);
    }
}

/// A cycle opened at `now_ms` stays locked exactly through the window of
/// `cycle_seconds` seconds that contains `now_ms`, the windows being aligned
/// on multiples of the cycle length from the epoch: locked at `t` if and
/// only if `start <= t < start + length`, where `start` is `now_ms` rounded
/// down to a multiple of the length.
pub proof fn lemma_cycle_window(now_ms: int, t: int, h: i8, n: u64, cycle_seconds: i64)
    requires
        cycle_seconds > 0,
        i64::MIN <= now_ms <= i64::MAX,
    ensures
        ({
            let len = 1000 * cycle_seconds;
            let start = now_ms - now_ms % len;
            spec_is_locked(Some(spec_open_cycle(now_ms, h, n, cycle_seconds)), t) <==> (start <= t
                < start + len)
        }),
{
    let len = 1000 * cycle_seconds;
    let q = now_ms / len;
    lemma_fundamental_div_mod(now_ms, len);
    lemma_mod_bound(now_ms, len);
    assert(i64::MIN <= q <= i64::MAX) by {
        if now_ms >= 0 {
            lemma_div_pos_is_pos(now_ms, len);
            lemma_div_is_ordered_by_denominator(now_ms, 1, len);
        } else {
            assert(len * q <= now_ms);
            assert(q < 0) by (nonlinear_arith)
                requires
                    len * q + now_ms % len == now_ms,
                    0 <= now_ms % len < len,
                    now_ms < 0,
                    len > 0,
            ;
            assert(q >= now_ms) by (nonlinear_arith)
                requires
                    len * q + now_ms % len == now_ms,
                    0 <= now_ms % len,
                    len >= 1000,
                    q < 0,
            ;
        }
    }
    let start = now_ms - now_ms % len;
    assert(start == q * len) by (nonlinear_arith)
        requires
            now_ms == len * q + now_ms % len,
            start == now_ms - now_ms % len,
    ;
    if start <= t < start + len {
        lemma_fundamental_div_mod_converse(t, len, q, t - start);
    }
    if t / len == q {
        lemma_fundamental_div_mod(t, len);
        lemma_mod_bound(t, len);
        assert(t - t % len == q * len) by (nonlinear_arith)
            requires
                t == len * (t / len) + t % len,
                t / len == q,
        ;
    }
}

} // verus!
