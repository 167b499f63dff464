//! What a tick does to the simulated position: the event that the NAV
//! accrual is booked under.

use vstd::prelude::*;
use crate::decision::PairDecision;
use crate::venue::Venue;
use crate::binary64::{is_finite, lt, spec_is_finite, spec_lt, ZERO};

verus! {

/// What happened to the simulated position on a tick.
#[derive(Debug, Clone, Copy, PartialEq, Eq, Structural)]
pub enum PositionEvent {
    /// No position held and no decision.
    Idle,
    /// First entry: the round-trip cost is charged.
    Opened,
    /// Same pair as the open position: funding only.
    Held,
    /// Another pair than the open position: the round-trip cost again.
    Rebalanced,
    /// No decision while a position is open: treated as held.
    HeldThroughGap,
}

/// Identity of the open position.
#[derive(Debug, Clone)]
pub struct OpenPair {
    pub long_venue: Venue,
    pub short_venue: Venue,
    pub symbol: String,
}

/// Whether a decision names the open position's pair and symbol.
pub open spec fn spec_same_position(p: OpenPair, d: PairDecision) -> bool {
    p.long_venue == d.long_venue && p.short_venue == d.short_venue && p.symbol@ == d.symbol@
}

/// Event of a tick with decision `d` and open position `open`.
pub open spec fn spec_position_event(d: Option<PairDecision>, open: Option<OpenPair>) -> PositionEvent {
    match (d, open) {
        (Some(_), None) => PositionEvent::Opened,
        (Some(x), Some(p)) => if spec_same_position(p, x) {
            PositionEvent::Held
        } else {
            PositionEvent::Rebalanced
        },
        (None, None) => PositionEvent::Idle,
        (None, Some(_)) => PositionEvent::HeldThroughGap,
    }
}

impl OpenPair {
    /// The position a decision opens.
    pub fn from_decision(d: &PairDecision) -> (r: Self)
        ensures
            r.long_venue == d.long_venue,
            r.short_venue == d.short_venue,
            r.symbol@ == d.symbol@,
    {
        OpenPair { long_venue: d.long_venue, short_venue: d.short_venue, symbol: d.symbol.clone() }
    }

    /// Whether `d` names this position's pair and symbol.
    pub fn matches(&self, d: &PairDecision) -> (r: bool)
        ensures
            r == spec_same_position(*self, *d),
    {
        self.long_venue == d.long_venue && self.short_venue == d.short_venue && self.symbol
            == d.symbol
    }
}

/// Classify a tick: opened, held, rebalanced, idle or held through a gap.
pub fn classify_position_event(d: Option<&PairDecision>, open: Option<&OpenPair>) -> (r: PositionEvent)
    ensures
        r == spec_position_event(
            match d {
                Some(x) => Some(*x),
                None => None,
            },
            match open {
                Some(p) => Some(*p),
                None => None,
            },
        ),
{
    match (d, open) {
        (Some(_), None) => PositionEvent::Opened,
        (Some(x), Some(p)) => if p.matches(x) {
            PositionEvent::Held
        } else {
            PositionEvent::Rebalanced
        },
        (None, None) => PositionEvent::Idle,
        (None, Some(_)) => PositionEvent::HeldThroughGap,
    }
}

impl PositionEvent {
    /// Label of the event (`"Opened"`, `"Held"`, ...).
    pub fn label(&self) -> (r: &'static str)
        ensures
            r@ == match *self {
                PositionEvent::Opened => "Opened"@,
                PositionEvent::Held => "Held"@,
                PositionEvent::Rebalanced => "Rebalanced"@,
                PositionEvent::Idle => "Idle"@,
                PositionEvent::HeldThroughGap => "HeldThroughGap"@,
            },
    {
        match self {
            PositionEvent::Opened => "Opened",
            PositionEvent::Held => "Held",
            PositionEvent::Rebalanced => "Rebalanced",
            PositionEvent::Idle => "Idle",
            PositionEvent::HeldThroughGap => "HeldThroughGap",
        }
    }

    /// Whether the event charges the round-trip cost.
    pub fn charges_cost(&self) -> (r: bool)
        ensures
            r <==> (*self == PositionEvent::Opened || *self == PositionEvent::Rebalanced),
    {
        match self {
            PositionEvent::Opened | PositionEvent::Rebalanced => true,
            _ => false,
        }
    }
}

/// A cost is charged exactly when a decision names a pair other than the
/// open one (or nothing is open): holding the same pair never pays twice.
pub proof fn lemma_cost_only_on_new_pair(d: Option<PairDecision>, open: Option<OpenPair>)
    ensures
        (spec_position_event(d, open) == PositionEvent::Opened || spec_position_event(d, open)
            == PositionEvent::Rebalanced) <==> (d is Some && (open is None || !spec_same_position(
            open->0,
            d->0,
        ))),
{
}

/// The event of a tick, by its inputs: with no decision, Idle or held
/// through the gap; a decision with nothing open opens; a decision with a
/// position open holds it exactly when long leg, short leg and symbol all
/// agree, and rebalances when any of them differs.
pub proof fn lemma_position_event_by_legs(d: Option<PairDecision>, open: Option<OpenPair>)
    ensures
        d is None && open is None ==> spec_position_event(d, open) == PositionEvent::Idle,
        d is None && open is Some ==> spec_position_event(d, open) == PositionEvent::HeldThroughGap,
        d is Some && open is None ==> spec_position_event(d, open) == PositionEvent::Opened,
        d is Some && open is Some ==> ((spec_position_event(d, open) == PositionEvent::Held) <==> (
        open->0.long_venue == d->0.long_venue && open->0.short_venue == d->0.short_venue
            && open->0.symbol@ == d->0.symbol@)),
        d is Some && open is Some ==> ((spec_position_event(d, open) == PositionEvent::Rebalanced)
            <==> (open->0.long_venue != d->0.long_venue || open->0.short_venue != d->0.short_venue
            || open->0.symbol@ != d->0.symbol@)),
{
}

/// A position opened from a decision is held by that same decision on the
/// next tick.
pub proof fn lemma_opened_position_is_held(d: PairDecision, p: OpenPair)
    requires
        p.long_venue == d.long_venue,
        p.short_venue == d.short_venue,
        p.symbol@ == d.symbol@,
    ensures
        spec_position_event(Some(d), Some(p)) == PositionEvent::Held,
{
}

/// Round-trip cost fraction charged when a decision carries no usable
/// cost: 10 basis points (binary64 encoding of 0.001).
pub const FALLBACK_COST_FRACTION: u64 = 0x3F50_624D_D2F1_A9FC;

/// The cost fraction charged for a decision's `cost_fraction`.
pub open spec fn spec_charged_cost_fraction(cost_fraction: u64) -> u64 {
    if spec_is_finite(cost_fraction) && spec_lt(ZERO, cost_fraction) {
        cost_fraction
    } else {
        FALLBACK_COST_FRACTION
    }
}

/// The charged cost fraction is always a finite positive number: the
/// decision's own when that is finite and positive, and the positive
/// fallback (below one percent) otherwise (zero, negative, infinite or NaN).
pub proof fn lemma_charged_cost_is_positive(cost_fraction: u64)
    ensures
        spec_is_finite(spec_charged_cost_fraction(cost_fraction)),
        spec_lt(ZERO, spec_charged_cost_fraction(cost_fraction)),
        spec_lt(spec_charged_cost_fraction(cost_fraction), 0x3F84_7AE1_47AE_147B)
            || (spec_is_finite(cost_fraction) && spec_lt(ZERO, cost_fraction)),
        (spec_is_finite(cost_fraction) && spec_lt(ZERO, cost_fraction)) ==> spec_charged_cost_fraction(
            cost_fraction,
        ) == cost_fraction,
{
}

/// Cost fraction charged for opening a pair: the decision's own when it is
/// a finite positive number, else the fallback.
pub fn charged_cost_fraction(cost_fraction: u64) -> (r: u64)
    ensures
        r == spec_charged_cost_fraction(cost_fraction),
{
    if is_finite(cost_fraction) && lt(ZERO, cost_fraction) {
        cost_fraction
    } else {
        FALLBACK_COST_FRACTION
    }
}

} // verus!
