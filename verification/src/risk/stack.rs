//! Composition of the runtime guards with the mode controller: worst wins
//! (Flatten > Block > Reduce with the smallest multiplier > Pass), and the
//! controller's emergency flatten overrides every guard.
//!
//! Guards are identified by their position in an evaluation:
//! kill switch, CVaR budget, heartbeat, watchdog, concentration, drawdown.

use vstd::prelude::*;
use crate::fsm_controller::{
    spec_collect_flags, spec_mode, spec_red_layers, Mode, RiskReport, RED_FLAG_LIMIT,
};

verus! {

/// Number of guards in a stack evaluation.
pub const GUARD_COUNT: usize = 6;

/// Position of the kill switch.
pub const KILL_SWITCH: usize = 0;

/// Position of the CVaR budget guard.
pub const CVAR_BUDGET: usize = 1;

/// Position of the hedge heartbeat.
pub const HEARTBEAT: usize = 2;

/// Position of the latency watchdog.
pub const WATCHDOG: usize = 3;

/// Position of the venue concentration cap.
pub const CONCENTRATION: usize = 4;

/// Position of the drawdown stop.
pub const DRAWDOWN: usize = 5;

/// Severity rank of Flatten (Pass 0, Reduce 1, Block 2, Flatten 3).
pub const FLATTEN_RANK: u8 = 3;

/// What the stack acts on.
#[derive(Debug, Clone, Copy, PartialEq, Eq, Structural)]
pub enum Composite {
    /// The controller's emergency flatten.
    FsmFlatten,
    /// No guard fired and the controller is Kelly-safe.
    Pass,
    /// No guard fired; the controller's scale reduces size.
    FsmReduce,
    /// The worst guard (by position) reduces; its multiplier is combined with the
    /// controller's scale.
    GuardReduce(usize),
    /// The worst guard blocks.
    GuardBlock(usize),
    /// The worst guard flattens.
    GuardFlatten(usize),
}

/// Whether a rank blocks (Block or Flatten).
pub open spec fn rank_blocks(r: u8) -> bool {
    r >= 2
}

/// Severity order between two guard outcomes, each a rank with its size
/// multiplier in basis points: `(ra, ma)` is no more severe than
/// `(rb, mb)`. The rank decides; between two Reduce outcomes the smaller
/// multiplier is the more severe.
pub open spec fn severity_le(ra: u8, ma: u32, rb: u8, mb: u32) -> bool {
    ra < rb || (ra == rb && (ra != 1 || mb <= ma))
}

/// Position of the worst guard: no guard is more severe, and none after it
/// is as severe (the last of the most severe).
pub open spec fn is_worst(ranks: Seq<u8>, mults: Seq<u32>, w: int) -> bool {
    &&& 0 <= w < ranks.len()
    &&& forall|j: int|
        #![trigger ranks[j]]
        0 <= j < ranks.len() ==> severity_le(ranks[j], mults[j], ranks[w], mults[w])
    &&& forall|j: int|
        #![trigger ranks[j]]
        w < j < ranks.len() ==> !severity_le(ranks[w], mults[w], ranks[j], mults[j])
}

/// The layer reports the controller receives for guard ranks `ranks`: CVaR
/// budget as `cvar`, concentration as `entropic_ce`, drawdown as `ecv`,
/// watchdog as `execution_chi2`; each red when its guard blocks.
pub open spec fn spec_guard_reports(ranks: Seq<u8>, r: Seq<RiskReport>) -> bool {
    &&& r.len() == 4
    &&& r[0].layer@ == "cvar"@ && r[0].red_flag == rank_blocks(ranks[CVAR_BUDGET as int])
    &&& r[1].layer@ == "entropic_ce"@ && r[1].red_flag == rank_blocks(ranks[CONCENTRATION as int])
    &&& r[2].layer@ == "ecv"@ && r[2].red_flag == rank_blocks(ranks[DRAWDOWN as int])
    &&& r[3].layer@ == "execution_chi2"@ && r[3].red_flag == rank_blocks(ranks[WATCHDOG as int])
}

/// The layer reports the controller receives (see [`spec_guard_reports`]).
pub fn guard_reports(ranks: &[u8]) -> (r: Vec<RiskReport>)
    requires
        ranks@.len() == GUARD_COUNT,
    ensures
        spec_guard_reports(ranks@, r@),
{
    let mut v: Vec<RiskReport> = Vec::new();
    v.push(RiskReport { layer: String::from_str("cvar"), red_flag: ranks[CVAR_BUDGET] >= 2 });
    v.push(
        RiskReport { layer: String::from_str("entropic_ce"), red_flag: ranks[CONCENTRATION] >= 2 },
    );
    v.push(RiskReport { layer: String::from_str("ecv"), red_flag: ranks[DRAWDOWN] >= 2 });
    v.push(
        RiskReport { layer: String::from_str("execution_chi2"), red_flag: ranks[WATCHDOG] >= 2 },
    );
    v
}

/// Funding is healthy when no guard blocks.
pub fn funding_healthy(ranks: &[u8]) -> (r: bool)
    ensures
        r == (forall|j: int| 0 <= j < ranks@.len() ==> !rank_blocks(#[trigger] ranks@[j])),
{
    let mut i: usize = 0;
    while i < ranks.len()
        invariant
            i <= ranks@.len(),
            forall|j: int| 0 <= j < i ==> !rank_blocks(#[trigger] ranks@[j]),
        decreases ranks@.len() - i,
    {
        if ranks[i] >= 2 {
            return false;
        }
        i = i + 1;
    }
    true
}

/// Position of the worst guard: Flatten > Block > Reduce (smallest
/// multiplier) > Pass; among equally severe guards, the last.
pub fn worst_guard(ranks: &[u8], mults_bps: &[u32]) -> (w: usize)
    requires
        ranks@.len() > 0,
        mults_bps@.len() == ranks@.len(),
    ensures
        is_worst(ranks@, mults_bps@, w as int),
{
    let mut w: usize = 0;
    let mut i: usize = 1;
    while i < ranks.len()
        invariant
            1 <= i <= ranks@.len(),
            mults_bps@.len() == ranks@.len(),
            w < i,
            forall|j: int|
                #![trigger ranks@[j]]
                0 <= j < i ==> severity_le(
                    ranks@[j],
                    mults_bps@[j],
                    ranks@[w as int],
                    mults_bps@[w as int],
                ),
            forall|j: int|
                #![trigger ranks@[j]]
                w < j < i ==> !severity_le(
                    ranks@[w as int],
                    mults_bps@[w as int],
                    ranks@[j],
                    mults_bps@[j],
                ),
        decreases ranks@.len() - i,
    {
        let ri = ranks[i];
        let rw = ranks[w];
        if ri > rw || (ri == rw && (ri != 1 || mults_bps[i] <= mults_bps[w])) {
            w = i;
        }
        i = i + 1;
    }
    w
}

/// The composite for guard ranks, the controller's emergency flatten and
/// its mode.
pub open spec fn spec_compose(ranks: Seq<u8>, w: int, fsm_flatten: bool, mode: Mode) -> Composite {
    if fsm_flatten {
        Composite::FsmFlatten
    } else if ranks[w] == 0 {
        if mode != Mode::KellySafe {
            Composite::FsmReduce
        } else {
            Composite::Pass
        }
    } else if ranks[w] == 1 {
        Composite::GuardReduce(w as usize)
    } else if ranks[w] == 2 {
        Composite::GuardBlock(w as usize)
    } else {
        Composite::GuardFlatten(w as usize)
    }
}

/// Compose the guards' ranks with the controller's decision.
/// `mults_bps` holds each guard's size multiplier in basis points.
pub fn compose(ranks: &[u8], mults_bps: &[u32], fsm_emergency_flatten: bool, fsm_mode: Mode) -> (r:
    Composite)
    requires
        ranks@.len() > 0,
        mults_bps@.len() == ranks@.len(),
        forall|j: int| 0 <= j < ranks@.len() ==> #[trigger] ranks@[j] <= FLATTEN_RANK,
    ensures
        exists|w: int|
            is_worst(ranks@, mults_bps@, w) && r == spec_compose(
                ranks@,
                w,
                fsm_emergency_flatten,
                fsm_mode,
            ),
{
    let w = worst_guard(ranks, mults_bps);
    if fsm_emergency_flatten {
        return Composite::FsmFlatten;
    }
    let r = if ranks[w] == 0 {
        if fsm_mode != Mode::KellySafe {
            Composite::FsmReduce
        } else {
            Composite::Pass
        }
    } else if ranks[w] == 1 {
        Composite::GuardReduce(w)
    } else if ranks[w] == 2 {
        Composite::GuardBlock(w)
    } else {
        Composite::GuardFlatten(w)
    };
    assert(r == spec_compose(ranks@, w as int, fsm_emergency_flatten, fsm_mode));
    r
}

/// Severity rank of a composite: Pass 0, a reduction 1, a block 2, a
/// flatten 3.
pub open spec fn composite_rank(c: Composite) -> int {
    match c {
        Composite::Pass => 0,
        Composite::FsmReduce => 1,
        Composite::GuardReduce(_) => 1,
        Composite::GuardBlock(_) => 2,
        Composite::GuardFlatten(_) => 3,
        Composite::FsmFlatten => 3,
    }
}

/// Number of the reported guards (CVaR budget, watchdog, concentration,
/// drawdown) that block.
pub open spec fn blocking_reported(ranks: Seq<u8>) -> int {
    (if rank_blocks(ranks[CVAR_BUDGET as int]) { 1int } else { 0 }) + (if rank_blocks(
        ranks[WATCHDOG as int],
    ) {
        1int
    } else {
        0
    }) + (if rank_blocks(ranks[CONCENTRATION as int]) { 1int } else { 0 }) + (if rank_blocks(
        ranks[DRAWDOWN as int],
    ) {
        1int
    } else {
        0
    })
}

/// The whole stack: the guards' ranks go to the controller as layer reports
/// (`guard_reports`), the controller steps on them (`step`), and `compose`
/// combines its decision with the worst guard. Then:
/// - the result is at least as severe as every guard;
/// - a flattening guard gives a flatten;
/// - two or more blocking reported guards are two red flags, and the
///   controller's emergency flatten wins;
/// - the stack passes only when every guard passes.
pub proof fn lemma_stack_composition(
    ranks: Seq<u8>,
    mults: Seq<u32>,
    w: int,
    reports: Seq<RiskReport>,
    forecast_flag: bool,
    funding_healthy: bool,
    cooldown_active: bool,
)
    requires
        ranks.len() == GUARD_COUNT,
        mults.len() == ranks.len(),
        forall|j: int| 0 <= j < ranks.len() ==> #[trigger] ranks[j] <= FLATTEN_RANK,
        is_worst(ranks, mults, w),
        spec_guard_reports(ranks, reports),
    ensures
        ({
            let n = spec_collect_flags(reports, forecast_flag).len();
            let emergency = n >= RED_FLAG_LIMIT;
            let r = spec_compose(ranks, w, emergency, spec_mode(n, funding_healthy, cooldown_active));
            &&& forall|j: int| 0 <= j < ranks.len() ==> composite_rank(r) >= #[trigger] ranks[j]
            &&& (exists|j: int| 0 <= j < ranks.len() && #[trigger] ranks[j] == FLATTEN_RANK) ==> (r
                is FsmFlatten || r is GuardFlatten)
            &&& blocking_reported(ranks) >= 2 ==> emergency && r is FsmFlatten
            &&& r is Pass ==> forall|j: int| 0 <= j < ranks.len() ==> #[trigger] ranks[j] == 0
        }),
{
    reveal_with_fuel(spec_red_layers, 5);
    assert(reports.drop_last().drop_last().drop_last().drop_last().len() == 0);
    assert(spec_red_layers(reports).len() == blocking_reported(ranks));
    assert(ranks[w] <= FLATTEN_RANK);
    assert forall|j: int| 0 <= j < ranks.len() implies #[trigger] ranks[j] <= ranks[w] by {
        assert(severity_le(ranks[j], mults[j], ranks[w], mults[w]));
    }
}

/// What the stack composes, by the guards' ranks and the controller:
/// - the controller's emergency flatten gives `FsmFlatten`;
/// - otherwise, with every guard passing, the stack passes exactly when the
///   controller is Kelly-safe, and reduces by the controller's scale in any
///   other mode;
/// - otherwise the stack acts on a guard `i` of the highest rank present
///   (Reduce, Block or Flatten as that rank), and when it reduces, no guard
///   has a smaller reducing multiplier.
pub proof fn lemma_compose_by_ranks(
    ranks: Seq<u8>,
    mults: Seq<u32>,
    w: int,
    emergency: bool,
    mode: Mode,
)
    requires
        ranks.len() <= usize::MAX,
        mults.len() == ranks.len(),
        forall|j: int| 0 <= j < ranks.len() ==> #[trigger] ranks[j] <= FLATTEN_RANK,
        is_worst(ranks, mults, w),
    ensures
        ({
            let r = spec_compose(ranks, w, emergency, mode);
            let all_pass = forall|j: int| 0 <= j < ranks.len() ==> #[trigger] ranks[j] == 0;
            &&& emergency ==> r == Composite::FsmFlatten
            &&& !emergency ==> ((r == Composite::Pass) <==> (all_pass && mode == Mode::KellySafe))
            &&& !emergency ==> ((r == Composite::FsmReduce) <==> (all_pass && mode
                != Mode::KellySafe))
            &&& (!emergency && !all_pass) ==> (exists|i: int|
                0 <= i < ranks.len() && (#[trigger] ranks[i] > 0) && (forall|j: int|
                    0 <= j < ranks.len() ==> #[trigger] ranks[j] <= ranks[i]) && r == (if ranks[i]
                    == 1 {
                    Composite::GuardReduce(i as usize)
                } else if ranks[i] == 2 {
                    Composite::GuardBlock(i as usize)
                } else {
                    Composite::GuardFlatten(i as usize)
                }))
            &&& forall|i: usize|
                r == Composite::GuardReduce(i) && i < ranks.len() ==> ranks[i as int] == 1
                    && forall|j: int|
                    0 <= j < ranks.len() ==> #[trigger] ranks[j] <= 1 && (ranks[j] == 1
                        ==> mults[i as int] <= mults[j])
        }),
{
    assert(ranks[w] <= FLATTEN_RANK);
    assert forall|j: int| 0 <= j < ranks.len() implies #[trigger] ranks[j] <= ranks[w] by {
        assert(severity_le(ranks[j], mults[j], ranks[w], mults[w]));
    }
    let all_pass = forall|j: int| 0 <= j < ranks.len() ==> #[trigger] ranks[j] == 0;
    if !emergency && !all_pass {
        let j0 = choose|j: int| 0 <= j < ranks.len() && #[trigger] ranks[j] != 0;
        assert(ranks[j0] <= ranks[w]);
        assert(ranks[w] > 0);
        assert((w as usize) as int == w);
    }
    if all_pass {
        assert(ranks[w] == 0);
    }
    assert forall|i: usize|
        spec_compose(ranks, w, emergency, mode) == Composite::GuardReduce(i) && i
            < ranks.len() implies ranks[i as int] == 1 && forall|j: int|
        0 <= j < ranks.len() ==> #[trigger] ranks[j] <= 1 && (ranks[j] == 1 ==> mults[i as int]
            <= mults[j]) by {
        assert(w as usize == i);
        assert(i as int == w);
        assert forall|j: int| 0 <= j < ranks.len() implies #[trigger] ranks[j] <= 1 && (ranks[j] == 1
            ==> mults[i as int] <= mults[j]) by {
            assert(severity_le(ranks[j], mults[j], ranks[w], mults[w]));
        }
    }
}

/// The worst position is unique.
pub proof fn lemma_worst_unique(ranks: Seq<u8>, mults: Seq<u32>, a: int, b: int)
    requires
        is_worst(ranks, mults, a),
        is_worst(ranks, mults, b),
    ensures
        a == b,
{
    if a < b {
        // b is worst, so a is no more severe; yet a is worst and b after it
        assert(severity_le(ranks[a], mults[a], ranks[b], mults[b]));
    } else if b < a {
        assert(severity_le(ranks[b], mults[b], ranks[a], mults[a]));
    }
}

/// A flattening kill switch is never outranked: the stack flattens.
pub proof fn lemma_kill_switch_dominates(
    ranks: Seq<u8>,
    mults: Seq<u32>,
    w: int,
    fsm_flatten: bool,
    mode: Mode,
)
    requires
        ranks.len() == GUARD_COUNT,
        mults.len() == ranks.len(),
        forall|j: int| 0 <= j < ranks.len() ==> #[trigger] ranks[j] <= FLATTEN_RANK,
        ranks[KILL_SWITCH as int] == FLATTEN_RANK,
        is_worst(ranks, mults, w),
    ensures
        spec_compose(ranks, w, fsm_flatten, mode) is FsmFlatten || spec_compose(
            ranks,
            w,
            fsm_flatten,
            mode,
        ) is GuardFlatten,
{
    assert(ranks[KILL_SWITCH as int] == FLATTEN_RANK);
    assert(ranks[w] <= FLATTEN_RANK);
}

/// Worst wins: without the controller's flatten, the stack acts on the
/// highest rank among the guards.
pub proof fn lemma_worst_wins(ranks: Seq<u8>, mults: Seq<u32>, w: int, mode: Mode, j: int)
    requires
        mults.len() == ranks.len(),
        forall|k: int| 0 <= k < ranks.len() ==> #[trigger] ranks[k] <= FLATTEN_RANK,
        is_worst(ranks, mults, w),
        0 <= j < ranks.len(),
    ensures
        ranks[j] == 2 ==> (spec_compose(ranks, w, false, mode) is GuardBlock || spec_compose(
            ranks,
            w,
            false,
            mode,
        ) is GuardFlatten),
        ranks[j] == FLATTEN_RANK ==> spec_compose(ranks, w, false, mode) is GuardFlatten,
{
    assert(ranks[j] == ranks[j]);
    assert(ranks[w] <= FLATTEN_RANK);
}

/// Among Reduce decisions the smallest multiplier wins: when the worst
/// guard reduces, no guard blocks and every reducing guard's multiplier is
/// at least the worst one's.
pub proof fn lemma_smallest_reduce_wins(ranks: Seq<u8>, mults: Seq<u32>, w: int, j: int)
    requires
        mults.len() == ranks.len(),
        is_worst(ranks, mults, w),
        ranks[w] == 1,
        0 <= j < ranks.len(),
    ensures
        ranks[j] <= 1,
        ranks[j] == 1 ==> mults[w] <= mults[j],
        spec_compose(ranks, w, false, Mode::KellySafe) == Composite::GuardReduce(w as usize),
{
    assert(ranks[j] == ranks[j]);
}

} // verus!
