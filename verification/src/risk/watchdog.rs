//! API-latency watchdog: the P99 of recent venue REST latencies decides.
//!
//! Policy:
//! - `p99 < warn`                                      → Pass
//! - `warn <= p99 < fatal`                             → Reduce to half size
//! - `p99 >= fatal`, fatal held for the sustained window → Flatten
//! - `p99 >= fatal`, not yet sustained                  → Reduce to a quarter
//!
//! Samples are kept in arrival order; a new sample first evicts, from the
//! front, the samples older than the observation window, then the oldest
//! one when the buffer is at capacity. Times and latencies are nanoseconds.

use std::collections::VecDeque;
use vstd::prelude::*;
use vstd::relations::{sorted_by, total_ordering};
use vstd::seq_lib::lemma_sorted_unique;
use crate::risk::{RiskDecision, RiskReason, saturating_since, severity};

verus! {

/// Default warning threshold: 1.5 s.
pub const DEFAULT_WARN_THRESHOLD_NS: u64 = 1_500_000_000;

/// Default fatal threshold: 3 s.
pub const DEFAULT_FATAL_THRESHOLD_NS: u64 = 3_000_000_000;

/// Default sustained window: 30 s.
pub const DEFAULT_SUSTAINED_WINDOW_NS: u64 = 30_000_000_000;

/// Default observation window: 60 s.
pub const DEFAULT_OBSERVATION_WINDOW_NS: u64 = 60_000_000_000;

/// Default buffer capacity.
pub const DEFAULT_MAX_SAMPLES: usize = 1024;

/// Size multiplier at the warning level (half size).
pub const WARN_SIZE_BPS: u32 = 5_000;

/// Size multiplier above the fatal threshold before it is sustained.
pub const FATAL_SIZE_BPS: u32 = 2_500;

/// Watchdog state.
#[derive(Debug, Clone)]
pub struct ApiLatencyWatchdog {
    /// (timestamp, latency) in arrival order.
    samples: VecDeque<(u64, u64)>,
    warn_threshold_ns: u64,
    fatal_threshold_ns: u64,
    sustained_window_ns: u64,
    observation_window_ns: u64,
    /// When the fatal threshold was first crossed and not cleared since.
    fatal_since: Option<u64>,
    capacity: usize,
}

/// The ordering latencies are sorted by.
pub open spec fn latency_leq() -> spec_fn(u64, u64) -> bool {
    |a: u64, b: u64| a <= b
}

/// Latencies of a sample sequence, in arrival order.
pub open spec fn latencies(s: Seq<(u64, u64)>) -> Seq<u64> {
    s.map_values(|p: (u64, u64)| p.1)
}

/// Rank (1-based) of the P99 in the sorted latencies: `ceil(0.99 n)`.
pub open spec fn p99_rank(n: nat) -> int {
    ((99 * n + 99) / 100) as int
}

/// P99 of a latency sequence: the element of rank `ceil(0.99 n)` in
/// ascending order; zero when empty.
pub open spec fn spec_p99(lat: Seq<u64>) -> u64 {
    if lat.len() == 0 {
        0
    } else {
        lat.sort_by(latency_leq())[p99_rank(lat.len()) - 1]
    }
}

/// Samples left after evicting, from the front, those older than `window`
/// at time `ts`.
pub open spec fn spec_evict(s: Seq<(u64, u64)>, ts: u64, window: u64) -> Seq<(u64, u64)>
    decreases s.len(),
{
    if s.len() > 0 && saturating_since(ts, s[0].0) > window {
        spec_evict(s.drop_first(), ts, window)
    } else {
        s
    }
}

/// Samples after admitting `(ts, lat)`: evict by age, then the oldest when
/// at capacity, then append.
pub open spec fn spec_admit(
    s: Seq<(u64, u64)>,
    ts: u64,
    lat: u64,
    window: u64,
    capacity: nat,
) -> Seq<(u64, u64)> {
    let e = spec_evict(s, ts, window);
    let e2 = if e.len() == capacity {
        e.drop_first()
    } else {
        e
    };
    e2.push((ts, lat))
}

/// The watchdog's decision at `now`.
pub open spec fn spec_watchdog_decision(
    p99: u64,
    warn: u64,
    fatal: u64,
    sustained: u64,
    fatal_since: Option<u64>,
    now: u64,
) -> RiskDecision {
    if p99 < warn {
        RiskDecision::Pass
    } else if p99 < fatal {
        RiskDecision::Reduce {
            size_multiplier_bps: WARN_SIZE_BPS,
            reason: RiskReason::LatencyWarn { p99_ns: p99, warn_ns: warn },
        }
    } else if fatal_since is Some && saturating_since(now, fatal_since->0) >= sustained {
        RiskDecision::Flatten {
            reason: RiskReason::LatencySustained { p99_ns: p99, sustained_ns: sustained },
        }
    } else {
        RiskDecision::Reduce {
            size_multiplier_bps: FATAL_SIZE_BPS,
            reason: RiskReason::LatencyFatal { p99_ns: p99, fatal_ns: fatal },
        }
    }
}

/// Sticky fatal marker after a sample at `ts` leaves the P99 at `p99`.
pub open spec fn spec_next_fatal_since(
    p99: u64,
    fatal: u64,
    previous: Option<u64>,
    ts: u64,
) -> Option<u64> {
    if p99 >= fatal {
        if previous is Some {
            previous
        } else {
            Some(ts)
        }
    } else {
        None
    }
}

/// Whether a sequence is in ascending order.
pub open spec fn ascending(s: Seq<u64>) -> bool {
    forall|i: int, j: int| 0 <= i < j < s.len() ==> s[i] <= s[j]
}

proof fn lemma_latency_leq_total()
    ensures
        total_ordering(latency_leq()),
{
}

proof fn lemma_p99_rank_bounds(n: nat)
    requires
        n >= 1,
    ensures
        1 <= p99_rank(n) <= n,
        p99_rank(n) == n - n / 100,
{
    let q = n / 100;
    let r = n % 100;
    assert(n == 100 * q + r);
    assert(99 * n + 99 == 100 * (99 * q + r) + (99 - r)) by (nonlinear_arith)
        requires
            n == 100 * q + r,
    ;
    assert((99 * n + 99) / 100 == 99 * q + r) by (nonlinear_arith)
        requires
            99 * n + 99 == 100 * (99 * q + r) + (99 - r),
            0 <= r < 100,
            q >= 0,
    ;
}

/// Sorting `lat` ascending gives exactly `sorted`, when `sorted` is an
/// ascending permutation of `lat`.
proof fn lemma_ascending_is_sort(lat: Seq<u64>, sorted: Seq<u64>)
    requires
        ascending(sorted),
        sorted.to_multiset() == lat.to_multiset(),
    ensures
        sorted == lat.sort_by(latency_leq()),
{
    lemma_latency_leq_total();
    lat.lemma_sort_by_ensures(latency_leq());
    assert(sorted_by(sorted, latency_leq()));
    lemma_sorted_unique(sorted, lat.sort_by(latency_leq()), latency_leq());
}

/// Latencies of `samples`, sorted ascending.
fn sorted_latencies(samples: &VecDeque<(u64, u64)>) -> (r: Vec<u64>)
    ensures
        ascending(r@),
        r@.to_multiset() == latencies(samples@).to_multiset(),
{
    broadcast use vstd::seq_lib::group_to_multiset_ensures;

    let mut out: Vec<u64> = Vec::new();
    let mut i: usize = 0;
    while i < samples.len()
        invariant
            0 <= i <= samples@.len(),
            ascending(out@),
            out@.to_multiset() == latencies(samples@).take(i as int).to_multiset(),
        decreases samples@.len() - i,
    {
        let x = samples[i].1;
        let mut p: usize = 0;
        while p < out.len() && out[p] <= x
            invariant
                p <= out@.len(),
                forall|k: int| 0 <= k < p ==> out@[k] <= x,
            decreases out@.len() - p,
        {
            p = p + 1;
        }
        let ghost before = out@;
        out.insert(p, x);
        proof {
            assert(out@ == before.insert(p as int, x));
            assert forall|a: int, b: int| 0 <= a < b < out@.len() implies out@[a] <= out@[b] by {
                if b < p {
                } else if a < p && b == p {
                } else if a < p {
                    assert(out@[b] == before[b - 1]);
                } else if a == p {
                    assert(p < before.len());
                    assert(before[p as int] > x);
                    assert(out@[b] == before[b - 1]);
                } else {
                    assert(out@[a] == before[a - 1]);
                    assert(out@[b] == before[b - 1]);
                }
            }
            assert(x == latencies(samples@)[i as int]);
            assert(latencies(samples@).take(i + 1) =~= latencies(samples@).take(i as int).push(x));
            vstd::seq_lib::to_multiset_insert(before, p as int, x);
            vstd::seq_lib::to_multiset_build(latencies(samples@).take(i as int), x);
        }
        i = i + 1;
    }
    assert(latencies(samples@).take(samples@.len() as int) =~= latencies(samples@));
    out
}

/// Whether timestamps are in arrival order (non-decreasing).
pub open spec fn timestamps_ascending(s: Seq<(u64, u64)>) -> bool {
    forall|i: int, j: int| 0 <= i < j < s.len() ==> s[i].0 <= s[j].0
}

/// Whether every sample lies at or before `ts` and within `window` of it.
pub open spec fn within_window(s: Seq<(u64, u64)>, ts: u64, window: u64) -> bool {
    forall|i: int| 0 <= i < s.len() ==> s[i].0 <= ts && ts - s[i].0 <= window
}

/// Eviction drops a prefix; what is left starts inside the window.
proof fn lemma_evict_is_suffix(s: Seq<(u64, u64)>, ts: u64, window: u64) -> (k: int)
    ensures
        0 <= k <= s.len(),
        spec_evict(s, ts, window) == s.subrange(k, s.len() as int),
        spec_evict(s, ts, window).len() > 0 ==> saturating_since(
            ts,
            spec_evict(s, ts, window)[0].0,
        ) <= window,
        forall|i: int| 0 <= i < k ==> saturating_since(ts, #[trigger] s[i].0) > window,
    decreases s.len(),
{
    if s.len() > 0 && saturating_since(ts, s[0].0) > window {
        let k1 = lemma_evict_is_suffix(s.drop_first(), ts, window);
        assert(s.drop_first().subrange(k1, s.drop_first().len() as int) =~= s.subrange(
            k1 + 1,
            s.len() as int,
        ));
        assert forall|i: int| 0 <= i < k1 + 1 implies saturating_since(ts, #[trigger] s[i].0)
            > window by {
            if i > 0 {
                assert(s[i] == s.drop_first()[i - 1]);
            }
        }
        k1 + 1
    } else {
        assert(s.subrange(0, s.len() as int) =~= s);
        0
    }
}

/// With records in time order, a watchdog keeps the latest records that lie
/// within the observation window of the newest one, at most `capacity` of
/// them: the samples held are a suffix `h[k..]` of the records, all within
/// the window, no longer than the capacity, and the record before it (if
/// any) is either outside the window or beyond the capacity.
pub proof fn lemma_kept_samples(h: Seq<(u64, u64)>, window: u64, capacity: nat) -> (k: int)
    requires
        capacity >= 1,
        timestamps_ascending(h),
    ensures
        0 <= k <= h.len(),
        replay_samples(h, window, capacity) == h.subrange(k, h.len() as int),
        h.len() - k <= capacity,
        forall|i: int| k <= i < h.len() ==> h.last().0 - #[trigger] h[i].0 <= window,
        k > 0 ==> (h.len() - k == capacity || h.last().0 - h[k - 1].0 > window),
    decreases h.len(),
{
    let n = h.len() as int;
    if n == 0 {
        assert(replay_samples(h, window, capacity) =~= h.subrange(0, 0));
        0
    } else {
        let t = h.drop_last();
        let (ts, lat) = h.last();
        assert(timestamps_ascending(t)) by {
            assert forall|i: int, j: int| 0 <= i < j < t.len() implies t[i].0 <= t[j].0 by {
                assert(t[i] == h[i] && t[j] == h[j]);
            }
        }
        let k1 = lemma_kept_samples(t, window, capacity);
        let s = replay_samples(t, window, capacity);
        let j = lemma_evict_is_suffix(s, ts, window);
        let m = k1 + j;
        let e = spec_evict(s, ts, window);
        assert(e =~= h.subrange(m, n - 1)) by {
            assert forall|i: int| 0 <= i < e.len() implies e[i] == h.subrange(m, n - 1)[i] by {
                assert(e[i] == s[j + i]);
                assert(s[j + i] == t[k1 + j + i]);
                assert(t[m + i] == h[m + i]);
            }
        }
        assert(forall|i: int| 0 <= i < n ==> #[trigger] h[i].0 <= ts) by {
            assert forall|i: int| 0 <= i < n implies #[trigger] h[i].0 <= ts by {
                if i < n - 1 {
                    assert(h[i].0 <= h[n - 1].0);
                }
            }
        }
        let k = if e.len() == capacity {
            m + 1
        } else {
            m
        };
        let e2 = if e.len() == capacity {
            e.drop_first()
        } else {
            e
        };
        assert(e2 =~= h.subrange(k, n - 1));
        assert(replay_samples(h, window, capacity) == e2.push((ts, lat)));
        assert(e2.push((ts, lat)) =~= h.subrange(k, n));
        assert forall|i: int| k <= i < n implies h.last().0 - #[trigger] h[i].0 <= window by {
            if i < n - 1 {
                assert(e.len() > 0);
                assert(e[0] == h[m]);
                assert(h[m].0 <= h[i].0);
            }
        }
        if k > 0 && e.len() != capacity {
            if j > 0 {
                assert(s[j - 1] == h[m - 1]);
                assert(saturating_since(ts, s[j - 1].0) > window);
            } else {
                assert(t[k1 - 1] == h[k1 - 1]);
                if t.len() - k1 == capacity {
                    assert(e.len() == capacity);
                }
                assert(t.last() == h[n - 2]);
                assert(h[n - 2].0 <= ts);
            }
        }
        k
    }
}

/// The P99 is one of the latencies held (when any is held), and no
/// latency held is above it in more than one percent of the samples'
/// ranks: it is the element of rank `ceil(0.99 n)` in ascending order.
pub proof fn lemma_p99_is_a_sample(lat: Seq<u64>)
    requires
        lat.len() > 0,
    ensures
        lat.contains(spec_p99(lat)),
        lat.sort_by(latency_leq()).len() == lat.len(),
        spec_p99(lat) == lat.sort_by(latency_leq())[p99_rank(lat.len()) - 1],
        1 <= p99_rank(lat.len()) <= lat.len(),
{
    broadcast use vstd::seq_lib::group_to_multiset_ensures;

    lemma_latency_leq_total();
    lemma_p99_rank_bounds(lat.len());
    lat.lemma_sort_by_ensures(latency_leq());
    let sorted = lat.sort_by(latency_leq());
    assert(sorted.to_multiset().len() == lat.to_multiset().len());
    let v = sorted[p99_rank(lat.len()) - 1];
    assert(sorted.contains(v));
    assert(sorted.to_multiset().count(v) > 0);
}

/// With samples arriving in time order, every sample held after a record
/// lies within the observation window of the newest timestamp, the order
/// is kept, and the newest sample is the last one held.
pub proof fn lemma_admit_keeps_window(
    s: Seq<(u64, u64)>,
    ts: u64,
    lat: u64,
    window: u64,
    capacity: nat,
)
    requires
        capacity >= 1,
        timestamps_ascending(s),
        forall|i: int| 0 <= i < s.len() ==> s[i].0 <= ts,
    ensures
        within_window(spec_admit(s, ts, lat, window, capacity), ts, window),
        timestamps_ascending(spec_admit(s, ts, lat, window, capacity)),
        spec_admit(s, ts, lat, window, capacity).last() == (ts, lat),
{
    let k = lemma_evict_is_suffix(s, ts, window);
    let e = spec_evict(s, ts, window);
    assert forall|i: int| 0 <= i < e.len() implies e[i].0 <= ts && ts - e[i].0 <= window by {
        assert(e[i] == s[k + i]);
        assert(e[0] == s[k]);
        assert(s[k].0 <= s[k + i].0);
    }
    let e2 = if e.len() == capacity {
        e.drop_first()
    } else {
        e
    };
    assert forall|i: int| 0 <= i < e2.len() implies e2[i].0 <= ts && ts - e2[i].0 <= window by {
        if e.len() == capacity {
            assert(e2[i] == e[i + 1]);
        }
    }
    assert forall|i: int, j: int| 0 <= i < j < e2.len() implies e2[i].0 <= e2[j].0 by {
        if e.len() == capacity {
            assert(e2[i] == s[k + i + 1]);
            assert(e2[j] == s[k + j + 1]);
        } else {
            assert(e2[i] == s[k + i]);
            assert(e2[j] == s[k + j]);
        }
    }
}

/// Samples held after the records `h`, admitted one by one into an empty
/// buffer.
pub open spec fn replay_samples(h: Seq<(u64, u64)>, window: u64, capacity: nat) -> Seq<(u64, u64)>
    decreases h.len(),
{
    if h.len() == 0 {
        Seq::empty()
    } else {
        spec_admit(
            replay_samples(h.drop_last(), window, capacity),
            h.last().0,
            h.last().1,
            window,
            capacity,
        )
    }
}

/// P99 of the samples held right after the first `j` records of `h`.
pub open spec fn p99_after(h: Seq<(u64, u64)>, j: int, window: u64, capacity: nat) -> u64 {
    spec_p99(latencies(replay_samples(h.take(j), window, capacity)))
}

/// Fatal marker after the records `h`, starting from a cleared marker.
pub open spec fn replay_marker(h: Seq<(u64, u64)>, window: u64, capacity: nat, fatal: u64) -> Option<
    u64,
>
    decreases h.len(),
{
    if h.len() == 0 {
        None
    } else {
        spec_next_fatal_since(
            p99_after(h, h.len() as int, window, capacity),
            fatal,
            replay_marker(h.drop_last(), window, capacity, fatal),
            h.last().0,
        )
    }
}

/// Record `k` of `h` starts the current fatal run: after it and after every
/// later record the P99 was at or above `fatal`, and after the record before
/// it (if any) it was below.
pub open spec fn is_fatal_run_start(
    h: Seq<(u64, u64)>,
    k: int,
    window: u64,
    capacity: nat,
    fatal: u64,
) -> bool {
    &&& 0 <= k < h.len()
    &&& forall|j: int| k < j <= h.len() ==> #[trigger] p99_after(h, j, window, capacity) >= fatal
    &&& k > 0 ==> p99_after(h, k, window, capacity) < fatal
}

/// Timestamp of the record that starts the current fatal run of `h`, if the
/// last record left the P99 at or above `fatal`.
pub open spec fn fatal_run_start(h: Seq<(u64, u64)>, window: u64, capacity: nat, fatal: u64) -> Option<
    u64,
> {
    if exists|k: int| is_fatal_run_start(h, k, window, capacity, fatal) {
        Some(h[choose|k: int| is_fatal_run_start(h, k, window, capacity, fatal)].0)
    } else {
        None
    }
}

proof fn lemma_p99_after_prefix(h: Seq<(u64, u64)>, j: int, window: u64, capacity: nat)
    requires
        h.len() > 0,
        0 <= j <= h.len() - 1,
    ensures
        p99_after(h, j, window, capacity) == p99_after(h.drop_last(), j, window, capacity),
{
    assert(h.take(j) =~= h.drop_last().take(j));
}

/// The fatal marker is the timestamp of the record that started the current
/// run of records after each of which the P99 was at or above `fatal`; it is
/// clear when the last record left the P99 below `fatal`.
pub proof fn lemma_marker_is_fatal_run_start(h: Seq<(u64, u64)>, window: u64, capacity: nat, fatal: u64)
    ensures
        replay_marker(h, window, capacity, fatal) == fatal_run_start(h, window, capacity, fatal),
        (h.len() > 0 && p99_after(h, h.len() as int, window, capacity) >= fatal) <==> replay_marker(
            h,
            window,
            capacity,
            fatal,
        ) is Some,
    decreases h.len(),
{
    let n = h.len() as int;
    if n == 0 {
        assert(!exists|k: int| is_fatal_run_start(h, k, window, capacity, fatal));
    } else {
        let t = h.drop_last();
        lemma_marker_is_fatal_run_start(t, window, capacity, fatal);
        assert forall|j: int| 0 <= j <= n - 1 implies #[trigger] p99_after(h, j, window, capacity)
            == p99_after(t, j, window, capacity) by {
            lemma_p99_after_prefix(h, j, window, capacity);
        }
        assert(t.take(n - 1) =~= t);
        if p99_after(h, n, window, capacity) < fatal {
            assert forall|k: int| !is_fatal_run_start(h, k, window, capacity, fatal) by {
                if 0 <= k < n {
                    assert(k < n && n <= h.len());
                }
            }
        } else if n == 1 || p99_after(h, n - 1, window, capacity) < fatal {
            // the run starts at the last record
            assert(is_fatal_run_start(h, n - 1, window, capacity, fatal)) by {
                assert forall|j: int| n - 1 < j <= h.len() implies #[trigger] p99_after(
                    h,
                    j,
                    window,
                    capacity,
                ) >= fatal by {
                    assert(j == n);
                }
            }
            assert forall|k: int| #[trigger] is_fatal_run_start(h, k, window, capacity, fatal) implies k
                == n - 1 by {
                if k < n - 1 {
                    assert(p99_after(h, n - 1, window, capacity) >= fatal);
                }
            }
            if n > 1 {
                assert(p99_after(t, n - 1, window, capacity) < fatal);
                assert(t.take(t.len() as int) =~= t);
            }
            assert(replay_marker(t, window, capacity, fatal) is None);
        } else {
            // the run started earlier and goes on
            assert(t.take(t.len() as int) =~= t);
            assert(p99_after(t, t.len() as int, window, capacity) >= fatal);
            let k = choose|k: int| is_fatal_run_start(t, k, window, capacity, fatal);
            assert(is_fatal_run_start(h, k, window, capacity, fatal)) by {
                assert forall|j: int| k < j <= h.len() implies #[trigger] p99_after(
                    h,
                    j,
                    window,
                    capacity,
                ) >= fatal by {
                    if j < n {
                        assert(p99_after(t, j, window, capacity) >= fatal);
                    }
                }
                if k > 0 {
                    assert(p99_after(t, k, window, capacity) < fatal);
                }
            }
            assert forall|k2: int| #[trigger] is_fatal_run_start(h, k2, window, capacity, fatal) implies k2
                == k by {
                assert(is_fatal_run_start(t, k2, window, capacity, fatal)) by {
                    if k2 == n - 1 {
                        assert(p99_after(h, n - 1, window, capacity) < fatal);
                    }
                    assert forall|j: int| k2 < j <= t.len() implies #[trigger] p99_after(
                        t,
                        j,
                        window,
                        capacity,
                    ) >= fatal by {
                        assert(p99_after(h, j, window, capacity) >= fatal);
                    }
                    if k2 > 0 {
                        assert(p99_after(h, k2, window, capacity) < fatal);
                    }
                }
                if k2 != k {
                    if k2 < k {
                        assert(p99_after(t, k, window, capacity) >= fatal);
                    } else {
                        assert(p99_after(t, k2, window, capacity) >= fatal);
                    }
                }
            }
            assert(h[k] == t[k]);
        }
    }
}

impl ApiLatencyWatchdog {
    /// Samples held, in arrival order.
    pub closed spec fn samples_view(&self) -> Seq<(u64, u64)> {
        self.samples@
    }

    /// Warning threshold.
    pub closed spec fn warn(&self) -> u64 {
        self.warn_threshold_ns
    }

    /// Fatal threshold.
    pub closed spec fn fatal(&self) -> u64 {
        self.fatal_threshold_ns
    }

    /// Sustained window.
    pub closed spec fn sustained(&self) -> u64 {
        self.sustained_window_ns
    }

    /// Observation window.
    pub closed spec fn observe(&self) -> u64 {
        self.observation_window_ns
    }

    /// Sticky fatal marker.
    pub closed spec fn fatal_marker(&self) -> Option<u64> {
        self.fatal_since
    }

    /// Buffer capacity.
    pub closed spec fn cap(&self) -> nat {
        self.capacity as nat
    }

    /// P99 of the samples held.
    pub open spec fn current_p99(&self) -> u64 {
        spec_p99(latencies(self.samples_view()))
    }

    /// The watchdog's decision at `now`, over its state.
    pub open spec fn decision_at(&self, now: u64) -> RiskDecision {
        spec_watchdog_decision(
            self.current_p99(),
            self.warn(),
            self.fatal(),
            self.sustained(),
            self.fatal_marker(),
            now,
        )
    }

    /// The watchdog holds what the records `h` leave in a fresh one: its
    /// samples and its fatal marker.
    pub open spec fn replays(&self, h: Seq<(u64, u64)>) -> bool {
        &&& self.samples_view() == replay_samples(h, self.observe(), self.cap())
        &&& self.fatal_marker() == replay_marker(h, self.observe(), self.cap(), self.fatal())
    }

    /// Well-formedness: thresholds ordered, buffer within capacity, and the
    /// fatal marker set exactly while the P99 is at or above fatal.
    pub open spec fn wf(&self) -> bool {
        &&& 0 < self.warn() < self.fatal()
        &&& 0 < self.sustained() <= self.observe()
        &&& self.cap() >= 4
        &&& self.samples_view().len() <= self.cap()
        &&& (self.fatal_marker() is Some <==> self.current_p99() >= self.fatal())
    }

    /// Watchdog with the default thresholds, windows and capacity.
    pub fn new() -> (r: Self)
        ensures
            r.wf(),
            r.samples_view().len() == 0,
            r.fatal_marker() is None,
            r.warn() == DEFAULT_WARN_THRESHOLD_NS,
            r.fatal() == DEFAULT_FATAL_THRESHOLD_NS,
            r.sustained() == DEFAULT_SUSTAINED_WINDOW_NS,
            r.observe() == DEFAULT_OBSERVATION_WINDOW_NS,
            r.cap() == DEFAULT_MAX_SAMPLES,
    {
        Self::with_params(
            DEFAULT_WARN_THRESHOLD_NS,
            DEFAULT_FATAL_THRESHOLD_NS,
            DEFAULT_SUSTAINED_WINDOW_NS,
            DEFAULT_OBSERVATION_WINDOW_NS,
            DEFAULT_MAX_SAMPLES,
        )
    }

    /// Watchdog with the given thresholds, windows and capacity.
    pub fn with_params(
        warn_ns: u64,
        fatal_ns: u64,
        sustained_ns: u64,
        observe_ns: u64,
        capacity: usize,
    ) -> (r: Self)
        requires
            0 < warn_ns < fatal_ns,
            0 < sustained_ns <= observe_ns,
            capacity >= 4,
        ensures
            r.wf(),
            r.samples_view().len() == 0,
            r.fatal_marker() is None,
            r.replays(Seq::empty()),
            r.current_p99() == 0,
            forall|now: u64| #[trigger] r.decision_at(now) == RiskDecision::Pass,
            r.warn() == warn_ns,
            r.fatal() == fatal_ns,
            r.sustained() == sustained_ns,
            r.observe() == observe_ns,
            r.cap() == capacity,
    {
        let r = ApiLatencyWatchdog {
            samples: VecDeque::with_capacity(capacity),
            warn_threshold_ns: warn_ns,
            fatal_threshold_ns: fatal_ns,
            sustained_window_ns: sustained_ns,
            observation_window_ns: observe_ns,
            fatal_since: None,
            capacity,
        };
        assert(latencies(r.samples_view()).len() == 0);
        assert(r.samples_view() =~= Seq::<(u64, u64)>::empty());
        r
    }

    /// Record a latency observation taken at `ts`.
    pub fn record(&mut self, ts: u64, latency_ns: u64)
        requires
            old(self).wf(),
        ensures
            final(self).wf(),
            final(self).samples_view() == spec_admit(
                old(self).samples_view(),
                ts,
                latency_ns,
                old(self).observe(),
                old(self).cap(),
            ),
            final(self).fatal_marker() == spec_next_fatal_since(
                final(self).current_p99(),
                old(self).fatal(),
                old(self).fatal_marker(),
                ts,
            ),
            final(self).warn() == old(self).warn(),
            final(self).fatal() == old(self).fatal(),
            final(self).sustained() == old(self).sustained(),
            final(self).observe() == old(self).observe(),
            final(self).cap() == old(self).cap(),
            forall|h: Seq<(u64, u64)>| #[trigger]
                old(self).replays(h) ==> final(self).replays(h.push((ts, latency_ns))),
    {
        let ghost s0 = self.samples@;
        while self.samples.len() > 0
            invariant
                spec_evict(self.samples@, ts, self.observation_window_ns) == spec_evict(
                    s0,
                    ts,
                    self.observation_window_ns,
                ),
                self.samples@.len() <= s0.len(),
                self.capacity == old(self).capacity,
                self.observation_window_ns == old(self).observation_window_ns,
                self.warn_threshold_ns == old(self).warn_threshold_ns,
                self.fatal_threshold_ns == old(self).fatal_threshold_ns,
                self.sustained_window_ns == old(self).sustained_window_ns,
                self.fatal_since == old(self).fatal_since,
            ensures
                spec_evict(self.samples@, ts, self.observation_window_ns) == self.samples@,
                spec_evict(self.samples@, ts, self.observation_window_ns) == spec_evict(
                    s0,
                    ts,
                    self.observation_window_ns,
                ),
                self.samples@.len() <= s0.len(),
                self.capacity == old(self).capacity,
                self.observation_window_ns == old(self).observation_window_ns,
                self.warn_threshold_ns == old(self).warn_threshold_ns,
                self.fatal_threshold_ns == old(self).fatal_threshold_ns,
                self.sustained_window_ns == old(self).sustained_window_ns,
                self.fatal_since == old(self).fatal_since,
            decreases self.samples@.len(),
        {
            let front_ts = self.samples[0].0;
            let age = if ts >= front_ts {
                ts - front_ts
            } else {
                0
            };
            if age > self.observation_window_ns {
                let ghost before = self.samples@;
                self.samples.pop_front();
                assert(self.samples@ =~= before.drop_first());
            } else {
                break;
            }
        }
        if self.samples.len() == self.capacity {
            let ghost before = self.samples@;
            self.samples.pop_front();
            assert(self.samples@ =~= before.drop_first());
        }
        self.samples.push_back((ts, latency_ns));
        let p99 = self.p99_latency();
        if p99 >= self.fatal_threshold_ns {
            if self.fatal_since.is_none() {
                self.fatal_since = Some(ts);
            }
        } else {
            self.fatal_since = None;
        }
        proof {
            assert forall|h: Seq<(u64, u64)>| #[trigger]
                old(self).replays(h) implies self.replays(h.push((ts, latency_ns))) by {
                let h2 = h.push((ts, latency_ns));
                assert(h2.drop_last() =~= h);
                assert(h2.take(h2.len() as int) =~= h2);
            }
        }
    }

    /// P99 latency over the samples held; zero when empty.
    pub fn p99_latency(&self) -> (r: u64)
        ensures
            r == self.current_p99(),
    {
        if self.samples.len() == 0 {
            return 0;
        }
        let vals = sorted_latencies(&self.samples);
        let n = vals.len();
        proof {
            broadcast use vstd::seq_lib::group_to_multiset_ensures;

            assert(latencies(self.samples@).len() == self.samples@.len());
            assert(vals@.to_multiset().len() == latencies(self.samples@).to_multiset().len());
            lemma_p99_rank_bounds(n as nat);
            lemma_ascending_is_sort(latencies(self.samples@), vals@);
        }
        let idx = n - n / 100 - 1;
        vals[idx]
    }

    /// Decision for a candidate trade at `now`.
    pub fn check(&self, now: u64) -> (r: RiskDecision)
        ensures
            r == self.decision_at(now),
    {
        let p99 = self.p99_latency();
        if p99 < self.warn_threshold_ns {
            return RiskDecision::Pass;
        }
        if p99 < self.fatal_threshold_ns {
            return RiskDecision::Reduce {
                size_multiplier_bps: WARN_SIZE_BPS,
                reason: RiskReason::LatencyWarn { p99_ns: p99, warn_ns: self.warn_threshold_ns },
            };
        }
        if let Some(fs) = self.fatal_since {
            let sustained_for = if now >= fs {
                now - fs
            } else {
                0
            };
            if sustained_for >= self.sustained_window_ns {
                return RiskDecision::Flatten {
                    reason: RiskReason::LatencySustained {
                        p99_ns: p99,
                        sustained_ns: self.sustained_window_ns,
                    },
                };
            }
        }
        RiskDecision::Reduce {
            size_multiplier_bps: FATAL_SIZE_BPS,
            reason: RiskReason::LatencyFatal { p99_ns: p99, fatal_ns: self.fatal_threshold_ns },
        }
    }

    /// When the fatal threshold was first crossed and not cleared since.
    pub fn fatal_since(&self) -> (r: Option<u64>)
        ensures
            r == self.fatal_marker(),
    {
        self.fatal_since
    }

    /// Number of samples held.
    pub fn sample_count(&self) -> (r: usize)
        ensures
            r == self.samples_view().len(),
    {
        self.samples.len()
    }
}

/// The decision of a watchdog that replays the records `h`: by the P99 of
/// the samples it keeps; at or above fatal it flattens once the record that
/// started the current fatal run lies at least the sustained window before
/// `now`, and reduces to a quarter before that.
pub proof fn lemma_check_by_history(w: ApiLatencyWatchdog, h: Seq<(u64, u64)>, now: u64)
    requires
        w.replays(h),
    ensures
        w.decision_at(now) == spec_watchdog_decision(
            spec_p99(latencies(replay_samples(h, w.observe(), w.cap()))),
            w.warn(),
            w.fatal(),
            w.sustained(),
            fatal_run_start(h, w.observe(), w.cap(), w.fatal()),
            now,
        ),
{
    lemma_marker_is_fatal_run_start(h, w.observe(), w.cap(), w.fatal());
}

/// The P99 of a watchdog that replays records `h` taken in time order is
/// the P99 of the records it keeps (see [`lemma_kept_samples`]): zero when
/// none is kept, else the element of rank `ceil(0.99 n)` of their sorted
/// latencies.
pub proof fn lemma_p99_over_kept_records(w: ApiLatencyWatchdog, h: Seq<(u64, u64)>) -> (k: int)
    requires
        w.replays(h),
        w.cap() >= 1,
        timestamps_ascending(h),
    ensures
        0 <= k <= h.len(),
        h.len() - k <= w.cap(),
        forall|i: int| k <= i < h.len() ==> h.last().0 - #[trigger] h[i].0 <= w.observe(),
        k > 0 ==> (h.len() - k == w.cap() || h.last().0 - h[k - 1].0 > w.observe()),
        w.current_p99() == spec_p99(latencies(h.subrange(k, h.len() as int))),
        k == h.len() ==> w.current_p99() == 0,
        k < h.len() ==> w.current_p99() == latencies(h.subrange(k, h.len() as int)).sort_by(
            latency_leq(),
        )[p99_rank((h.len() - k) as nat) - 1],
{
    let k = lemma_kept_samples(h, w.observe(), w.cap());
    k
}

/// For a fixed state, the watchdog never de-escalates as time passes.
pub proof fn lemma_watchdog_escalates_with_time(w: ApiLatencyWatchdog, t1: u64, t2: u64)
    requires
        t1 <= t2,
    ensures
        severity(w.decision_at(t1)) <= severity(w.decision_at(t2)),
{
}

/// A recorded sample that brings the P99 back below the fatal threshold
/// clears the sticky fatal marker; one that keeps it at or above fatal
/// keeps the time it was first crossed.
pub proof fn lemma_recovery_clears_fatal_marker(
    before: ApiLatencyWatchdog,
    after: ApiLatencyWatchdog,
    ts: u64,
)
    requires
        after.fatal_marker() == spec_next_fatal_since(
            after.current_p99(),
            before.fatal(),
            before.fatal_marker(),
            ts,
        ),
    ensures
        after.current_p99() < before.fatal() ==> after.fatal_marker() is None,
        after.current_p99() >= before.fatal() && before.fatal_marker() is Some
            ==> after.fatal_marker() == before.fatal_marker(),
{
}

} // verus!
