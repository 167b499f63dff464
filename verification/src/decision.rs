//! A cross-venue pair decision as the lock registry stores it. Rates,
//! fractions and notionals are binary64 encodings (see `binary64`); the
//! verified core only carries them and compares them.

use vstd::prelude::*;
use crate::binary64::{le, lt, spec_le, spec_lt, NEGATIVE_INFINITY};
use crate::venue::Venue;

verus! {

/// A "would have executed" pair decision.
#[derive(Debug)]
pub struct PairDecision {
    /// Venue of the long leg (lower funding rate).
    pub long_venue: Venue,
    /// Venue of the short leg (higher funding rate).
    pub short_venue: Venue,
    /// Symbol shared by both legs.
    pub symbol: String,
    /// Absolute annualized spread, gross of cost.
    pub spread_annual: u64,
    /// Round-trip cost as a fraction of notional.
    pub cost_fraction: u64,
    /// Spread net of round-trip cost.
    pub net_annual: u64,
    /// Notional per leg in USD.
    pub notional_usd: u64,
    /// Human-readable explanation.
    pub reason: String,
    /// Always true in demo mode: the decision is telemetry only.
    pub would_have_executed: bool,
}

impl Clone for PairDecision {
    fn clone(&self) -> (r: Self)
        ensures
            r == *self,
    {
        PairDecision {
            long_venue: self.long_venue,
            short_venue: self.short_venue,
            symbol: self.symbol.clone(),
            spread_annual: self.spread_annual,
            cost_fraction: self.cost_fraction,
            net_annual: self.net_annual,
            notional_usd: self.notional_usd,
            reason: self.reason.clone(),
            would_have_executed: self.would_have_executed,
        }
    }
}

/// Orientation of a venue pair: the first venue is the long leg iff its
/// funding rate is at most the second's (binary64 comparison; a NaN rate
/// makes the second venue long).
pub fn first_is_long(rate_first: u64, rate_second: u64) -> (r: bool)
    ensures
        r == spec_le(rate_first, rate_second),
{
    le(rate_first, rate_second)
}

/// One oriented, costed venue pair.
#[derive(Debug, Clone, Copy, PartialEq, Eq, Structural)]
pub struct PairCandidate {
    /// Position of the long leg's snapshot.
    pub long_idx: usize,
    /// Position of the short leg's snapshot.
    pub short_idx: usize,
    /// Both legs show positive top-of-book depth.
    pub has_depth: bool,
    /// Annual spread net of round-trip cost (binary64).
    pub net_annual: u64,
}

/// A candidate that can win: it has depth, its net spread is not below the
/// threshold, and it is above negative infinity (so not NaN).
pub open spec fn can_win(c: PairCandidate, min_net: u64) -> bool {
    c.has_depth && !spec_lt(c.net_annual, min_net) && spec_lt(NEGATIVE_INFINITY, c.net_annual)
}

/// The best candidate: the first one of largest net spread among those that
/// can win; none when no candidate can.
pub fn select_best_pair(cands: &[PairCandidate], min_net: u64) -> (r: Option<usize>)
    ensures
        r is None <==> (forall|k: int| 0 <= k < cands@.len() ==> !can_win(#[trigger] cands@[k], min_net)),
        r matches Some(k) ==> {
            &&& k < cands@.len()
            &&& can_win(cands@[k as int], min_net)
            &&& forall|j: int|
                0 <= j < k && can_win(#[trigger] cands@[j], min_net) ==> spec_lt(
                    cands@[j].net_annual,
                    cands@[k as int].net_annual,
                )
            &&& forall|j: int|
                k < j < cands@.len() && can_win(#[trigger] cands@[j], min_net) ==> !spec_lt(
                    cands@[k as int].net_annual,
                    cands@[j].net_annual,
                )
        },
{
    let mut best: Option<usize> = None;
    let mut best_net: u64 = NEGATIVE_INFINITY;
    let mut i: usize = 0;
    while i < cands.len()
        invariant
            i <= cands@.len(),
            best is None ==> best_net == NEGATIVE_INFINITY && (forall|k: int|
                0 <= k < i ==> !can_win(#[trigger] cands@[k], min_net)),
            best matches Some(b) ==> {
                &&& b < i
                &&& can_win(cands@[b as int], min_net)
                &&& best_net == cands@[b as int].net_annual
                &&& forall|j: int|
                    0 <= j < b && can_win(#[trigger] cands@[j], min_net) ==> spec_lt(
                        cands@[j].net_annual,
                        best_net,
                    )
                &&& forall|j: int|
                    b < j < i && can_win(#[trigger] cands@[j], min_net) ==> !spec_lt(
                        best_net,
                        cands@[j].net_annual,
                    )
            },
        decreases cands@.len() - i,
    {
        let c = cands[i];
        if c.has_depth && !lt(c.net_annual, min_net) && lt(best_net, c.net_annual) {
            best = Some(i);
            best_net = c.net_annual;
        }
        i = i + 1;
    }
    best
}

} // verus!
