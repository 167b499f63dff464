//! Hedge-leg heartbeat: escalates when the pivot leg of a position fills and
//! the hedge leg does not follow.
//!
//! A fill is *paired* when the latest pivot and hedge fills lie within the
//! pair window of each other. Once a paired fill has been seen and a later
//! single-sided fill outruns it, the gap since the paired fill decides:
//! - `gap < max`            → Pass
//! - `max <= gap < 2 * max` → Reduce to a quarter of full size
//! - `gap >= 2 * max`       → Flatten

use vstd::prelude::*;
use crate::risk::{RiskDecision, RiskReason, saturating_since, severity};

verus! {

/// Default maximum hedge gap: 5 seconds.
pub const DEFAULT_MAX_HEDGE_GAP_NS: u64 = 5_000_000_000;

/// Default pair window: 2 seconds.
pub const DEFAULT_PAIR_WINDOW_NS: u64 = 2_000_000_000;

/// Size multiplier when the hedge gap is degraded (a quarter of full size).
pub const DEGRADED_SIZE_BPS: u32 = 2_500;

/// Heartbeat state; times are nanoseconds on a monotonic clock.
#[derive(Debug)]
pub struct HedgeHeartbeat {
    last_paired_fill: Option<u64>,
    last_pivot_fill: Option<u64>,
    last_hedge_fill: Option<u64>,
    max_hedge_gap_ns: u64,
    pair_window_ns: u64,
}

/// Absolute distance between two instants.
pub open spec fn spec_fill_gap(a: u64, b: u64) -> int {
    if a > b {
        a - b
    } else {
        b - a
    }
}

/// Whether the latest pivot and hedge fills form a pair.
pub open spec fn spec_is_paired(pivot: Option<u64>, hedge: Option<u64>, window: u64) -> bool {
    &&& pivot is Some
    &&& hedge is Some
    &&& spec_fill_gap(pivot->0, hedge->0) <= window
}

/// Most recent single-leg activity, or `paired` when no leg has filled.
pub open spec fn spec_last_activity(pivot: Option<u64>, hedge: Option<u64>, paired: u64) -> u64 {
    match (pivot, hedge) {
        (Some(a), Some(b)) => if a >= b { a } else { b },
        (Some(x), None) => x,
        (None, Some(x)) => x,
        (None, None) => paired,
    }
}

/// The heartbeat's decision at `now`.
pub open spec fn spec_heartbeat_decision(
    paired: Option<u64>,
    pivot: Option<u64>,
    hedge: Option<u64>,
    max_gap: u64,
    now: u64,
) -> RiskDecision {
    match paired {
        None => RiskDecision::Pass,
        Some(lp) => {
            if spec_last_activity(pivot, hedge, lp) <= lp {
                RiskDecision::Pass
            } else {
                let gap = saturating_since(now, lp);
                if gap < max_gap {
                    RiskDecision::Pass
                } else if gap < 2 * max_gap {
                    RiskDecision::Reduce {
                        size_multiplier_bps: DEGRADED_SIZE_BPS,
                        reason: RiskReason::HedgeGapDegraded { gap_ns: gap, max_gap_ns: max_gap },
                    }
                } else {
                    RiskDecision::Flatten {
                        reason: RiskReason::HedgeGapCritical { gap_ns: gap, max_gap_ns: max_gap },
                    }
                }
            }
        },
    }
}

impl Clone for HedgeHeartbeat {
    fn clone(&self) -> (r: Self)
        ensures
            r == *self,
    {
        proof {
            use_type_invariant(self);
        }
        HedgeHeartbeat {
            last_paired_fill: self.last_paired_fill,
            last_pivot_fill: self.last_pivot_fill,
            last_hedge_fill: self.last_hedge_fill,
            max_hedge_gap_ns: self.max_hedge_gap_ns,
            pair_window_ns: self.pair_window_ns,
        }
    }
}

/// What recording a pivot fill at `now` does to a heartbeat's state.
pub open spec fn spec_pivot_fill_effect(before: HedgeHeartbeat, now: u64, after: HedgeHeartbeat) -> bool {
    &&& after.last_pivot() == Some(now)
    &&& after.last_hedge() == before.last_hedge()
    &&& after.last_paired() == (if spec_is_paired(Some(now), before.last_hedge(), before.window()) {
        Some(now)
    } else {
        before.last_paired()
    })
    &&& after.max_gap() == before.max_gap()
    &&& after.window() == before.window()
}

impl HedgeHeartbeat {
    /// The maximum gap and the pair window are positive.
    #[verifier::type_invariant]
    spec fn positive_params(self) -> bool {
        self.max_hedge_gap_ns > 0 && self.pair_window_ns > 0
    }

    /// Time of the last paired fill.
    pub closed spec fn last_paired(&self) -> Option<u64> {
        self.last_paired_fill
    }

    /// Time of the last pivot fill.
    pub closed spec fn last_pivot(&self) -> Option<u64> {
        self.last_pivot_fill
    }

    /// Time of the last hedge fill.
    pub closed spec fn last_hedge(&self) -> Option<u64> {
        self.last_hedge_fill
    }

    /// Maximum hedge gap.
    pub closed spec fn max_gap(&self) -> u64 {
        self.max_hedge_gap_ns
    }

    /// Pair window.
    pub closed spec fn window(&self) -> u64 {
        self.pair_window_ns
    }

    /// The heartbeat's decision at `now`, over its state.
    pub open spec fn decision_at(&self, now: u64) -> RiskDecision {
        spec_heartbeat_decision(
            self.last_paired(),
            self.last_pivot(),
            self.last_hedge(),
            self.max_gap(),
            now,
        )
    }

    /// Heartbeat with the default gap (5 s) and pair window (2 s).
    pub fn new() -> (r: Self)
        ensures
            r.last_paired() is None,
            r.last_pivot() is None,
            r.last_hedge() is None,
            r.max_gap() == DEFAULT_MAX_HEDGE_GAP_NS,
            r.window() == DEFAULT_PAIR_WINDOW_NS,
    {
        Self::with_params(DEFAULT_MAX_HEDGE_GAP_NS, DEFAULT_PAIR_WINDOW_NS)
    }

    /// Heartbeat with the given maximum gap and pair window (both positive).
    pub fn with_params(max_hedge_gap_ns: u64, pair_window_ns: u64) -> (r: Self)
        requires
            max_hedge_gap_ns > 0,
            pair_window_ns > 0,
        ensures
            r.last_paired() is None,
            r.last_pivot() is None,
            r.last_hedge() is None,
            r.max_gap() == max_hedge_gap_ns,
            r.window() == pair_window_ns,
    {
        HedgeHeartbeat {
            last_paired_fill: None,
            last_pivot_fill: None,
            last_hedge_fill: None,
            max_hedge_gap_ns,
            pair_window_ns,
        }
    }

    /// Record a pivot-leg fill at `now`.
    pub fn record_pivot_fill(&mut self, now: u64)
        ensures
            spec_pivot_fill_effect(*old(self), now, *final(self)),
            old(self).max_gap() > 0 && old(self).window() > 0,
    {
        proof {
            use_type_invariant(&*self);
        }
        self.last_pivot_fill = Some(now);
        self.check_pairing(now);
    }

    /// Record a hedge-leg fill at `now`.
    pub fn record_hedge_fill(&mut self, now: u64)
        ensures
            final(self).last_hedge() == Some(now),
            final(self).last_pivot() == old(self).last_pivot(),
            final(self).last_paired() == (if spec_is_paired(
                old(self).last_pivot(),
                Some(now),
                old(self).window(),
            ) {
                Some(now)
            } else {
                old(self).last_paired()
            }),
            final(self).max_gap() == old(self).max_gap(),
            final(self).window() == old(self).window(),
            old(self).max_gap() > 0 && old(self).window() > 0,
    {
        proof {
            use_type_invariant(&*self);
        }
        self.last_hedge_fill = Some(now);
        self.check_pairing(now);
    }

    /// Mark `now` as the last paired fill when the latest pivot and hedge
    /// fills lie within the pair window of each other.
    pub fn check_pairing(&mut self, now: u64)
        ensures
            final(self).last_pivot() == old(self).last_pivot(),
            final(self).last_hedge() == old(self).last_hedge(),
            final(self).last_paired() == (if spec_is_paired(
                old(self).last_pivot(),
                old(self).last_hedge(),
                old(self).window(),
            ) {
                Some(now)
            } else {
                old(self).last_paired()
            }),
            final(self).max_gap() == old(self).max_gap(),
            final(self).window() == old(self).window(),
            old(self).max_gap() > 0 && old(self).window() > 0,
    {
        proof {
            use_type_invariant(&*self);
        }
        if let (Some(pivot), Some(hedge)) = (self.last_pivot_fill, self.last_hedge_fill) {
            let gap = if pivot > hedge {
                pivot - hedge
            } else {
                hedge - pivot
            };
            if gap <= self.pair_window_ns {
                self.last_paired_fill = Some(now);
            }
        }
    }

    /// Decision at `now`: Pass until a paired fill has been seen and a later
    /// single-sided fill outruns it; then by the gap since the paired fill.
    pub fn check(&self, now: u64) -> (r: RiskDecision)
        ensures
            r == self.decision_at(now),
            self.max_gap() > 0 && self.window() > 0,
    {
        proof {
            use_type_invariant(self);
        }
        let last_paired = match self.last_paired_fill {
            None => {
                return RiskDecision::Pass;
            },
            Some(p) => p,
        };
        let last_activity = match (self.last_pivot_fill, self.last_hedge_fill) {
            (Some(a), Some(b)) => if a >= b {
                a
            } else {
                b
            },
            (Some(x), None) => x,
            (None, Some(x)) => x,
            (None, None) => last_paired,
        };
        if last_activity <= last_paired {
            return RiskDecision::Pass;
        }
        let gap = if now >= last_paired {
            now - last_paired
        } else {
            0
        };
        if gap < self.max_hedge_gap_ns {
            return RiskDecision::Pass;
        }
        if gap - self.max_hedge_gap_ns < self.max_hedge_gap_ns {
            return RiskDecision::Reduce {
                size_multiplier_bps: DEGRADED_SIZE_BPS,
                reason: RiskReason::HedgeGapDegraded {
                    gap_ns: gap,
                    max_gap_ns: self.max_hedge_gap_ns,
                },
            };
        }
        RiskDecision::Flatten {
            reason: RiskReason::HedgeGapCritical { gap_ns: gap, max_gap_ns: self.max_hedge_gap_ns },
        }
    }

    /// Maximum hedge gap in nanoseconds.
    pub fn max_hedge_gap_ns(&self) -> (r: u64)
        ensures
            r == self.max_gap(),
            r > 0,
    {
        proof {
            use_type_invariant(self);
        }
        self.max_hedge_gap_ns
    }

    /// Pair window in nanoseconds.
    pub fn pair_window_ns(&self) -> (r: u64)
        ensures
            r == self.window(),
            r > 0,
    {
        proof {
            use_type_invariant(self);
        }
        self.pair_window_ns
    }
}

/// For a fixed state, the heartbeat never de-escalates as time passes: a
/// later check is at least as severe as an earlier one.
pub proof fn lemma_heartbeat_escalates_with_time(hb: HedgeHeartbeat, t1: u64, t2: u64)
    requires
        t1 <= t2,
    ensures
        severity(hb.decision_at(t1)) <= severity(hb.decision_at(t2)),
{
}

/// Until a paired fill has been observed the heartbeat passes at every time.
pub proof fn lemma_heartbeat_passes_before_first_pair(hb: HedgeHeartbeat, now: u64)
    requires
        hb.last_paired() is None,
    ensures
        hb.decision_at(now) == RiskDecision::Pass,
{
}

/// A hedge fill that lands within the pair window at or after the latest
/// pivot fill re-establishes the pair: the heartbeat then passes at every
/// later time, until another single-sided fill.
pub proof fn lemma_hedge_fill_restores_pass(
    before: HedgeHeartbeat,
    after: HedgeHeartbeat,
    now: u64,
    later: u64,
)
    requires
        before.last_pivot() is Some,
        before.last_pivot()->0 <= now,
        now - before.last_pivot()->0 <= before.window(),
        after.last_hedge() == Some(now),
        after.last_pivot() == before.last_pivot(),
        after.last_paired() == Some(now),
    ensures
        after.decision_at(later) == RiskDecision::Pass,
{
}

/// After a pivot fill at `now` (no earlier than the last hedge fill and
/// later than the last paired fill): if the hedge leg filled within the
/// pair window before it, the fill is paired and the heartbeat passes at
/// every time; otherwise, with a paired fill at `P`, it passes while
/// `x - P < max`, reduces to a quarter of full size while
/// `max <= x - P < 2 * max`, and flattens from `2 * max` on; with no paired
/// fill yet it passes.
pub proof fn lemma_pivot_fill_then_check(
    before: HedgeHeartbeat,
    after: HedgeHeartbeat,
    now: u64,
    x: u64,
)
    requires
        before.max_gap() > 0,
        spec_pivot_fill_effect(before, now, after),
        before.last_hedge() matches Some(h) ==> h <= now,
        before.last_paired() matches Some(p) ==> p < now,
    ensures
        (before.last_hedge() matches Some(h) && now - h <= before.window()) ==> after.decision_at(x)
            == RiskDecision::Pass,
        !(before.last_hedge() matches Some(h) && now - h <= before.window()) ==> match before.last_paired() {
            None => after.decision_at(x) == RiskDecision::Pass,
            Some(p) => {
                &&& x < p + before.max_gap() ==> after.decision_at(x) == RiskDecision::Pass
                &&& p + before.max_gap() <= x < p + 2 * before.max_gap() ==> (after.decision_at(x) matches RiskDecision::Reduce { size_multiplier_bps, .. }
                    && size_multiplier_bps == DEGRADED_SIZE_BPS)
                &&& x >= p + 2 * before.max_gap() ==> after.decision_at(x) is Flatten
            },
        },
{
}

/// Past twice the maximum gap since the last pair, a single-sided fill that
/// outruns the pair flattens.
pub proof fn lemma_heartbeat_flattens_past_twice_max(hb: HedgeHeartbeat, now: u64)
    requires
        hb.last_paired() is Some,
        spec_last_activity(hb.last_pivot(), hb.last_hedge(), hb.last_paired()->0)
            > hb.last_paired()->0,
        now >= hb.last_paired()->0,
        now - hb.last_paired()->0 >= 2 * hb.max_gap(),
    ensures
        hb.decision_at(now) is Flatten,
{
}

} // verus!
