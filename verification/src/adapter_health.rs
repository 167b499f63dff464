//! Per-symbol adapter health telemetry: counters of venue-fetch failures so
//! that a dashboard can flag symbols whose venue endpoints are flaky. The
//! flag is advisory; it does not take a symbol out of the decision loop.

use vstd::prelude::*;
use crate::venue::{venue_debug_name, Venue};

verus! {

/// Consecutive failing ticks at which a symbol is flagged as degraded.
pub const DEGRADATION_THRESHOLD: u32 = 3;

/// Health counters of one symbol.
#[derive(Debug)]
pub struct SymbolHealth {
    /// Venue-fetch failures since start, summed over venues (saturating).
    pub total_failures: u32,
    /// Consecutive ticks with at least one failure; zero after a clean tick.
    pub consecutive_failures: u32,
    /// Set once `consecutive_failures` reaches the threshold, cleared by a
    /// clean tick.
    pub is_degraded: bool,
    /// Name of the first venue that failed on the last failing tick.
    pub last_failure_venue: Option<String>,
}

/// Mathematical value of a [`SymbolHealth`].
pub struct SymbolHealthView {
    pub total_failures: u32,
    pub consecutive_failures: u32,
    pub is_degraded: bool,
    pub last_failure_venue: Option<Seq<char>>,
}

impl View for SymbolHealth {
    type V = SymbolHealthView;

    open spec fn view(&self) -> SymbolHealthView {
        SymbolHealthView {
            total_failures: self.total_failures,
            consecutive_failures: self.consecutive_failures,
            is_degraded: self.is_degraded,
            last_failure_venue: match self.last_failure_venue {
                Some(s) => Some(s@),
                None => None,
            },
        }
    }
}

/// Health of a symbol with no history.
pub open spec fn spec_zero_health() -> SymbolHealthView {
    SymbolHealthView {
        total_failures: 0,
        consecutive_failures: 0,
        is_degraded: false,
        last_failure_venue: None,
    }
}

/// Saturating addition on `u32`.
pub open spec fn sat_add_u32(a: u32, b: int) -> u32 {
    if a + b > u32::MAX {
        u32::MAX
    } else {
        (a + b) as u32
    }
}

/// Health after one tick whose failing venues are `failures` (in order).
pub open spec fn spec_after_tick(h: SymbolHealthView, failures: Seq<(Venue, &str)>) -> SymbolHealthView {
    if failures.len() == 0 {
        SymbolHealthView { consecutive_failures: 0, is_degraded: false, ..h }
    } else {
        let c = sat_add_u32(h.consecutive_failures, 1);
        SymbolHealthView {
            total_failures: sat_add_u32(h.total_failures, (failures.len() as u32) as int),
            consecutive_failures: c,
            is_degraded: if c >= DEGRADATION_THRESHOLD {
                true
            } else {
                h.is_degraded
            },
            last_failure_venue: Some(venue_debug_name(failures[0].0)),
        }
    }
}

/// The degraded flag is set exactly when the consecutive count has reached
/// the threshold.
pub open spec fn degraded_flag_exact(h: SymbolHealthView) -> bool {
    h.is_degraded <==> h.consecutive_failures >= DEGRADATION_THRESHOLD
}

impl Clone for SymbolHealth {
    fn clone(&self) -> (r: Self)
        ensures
            r == *self,
    {
        SymbolHealth {
            total_failures: self.total_failures,
            consecutive_failures: self.consecutive_failures,
            is_degraded: self.is_degraded,
            last_failure_venue: match &self.last_failure_venue {
                Some(s) => Some(s.clone()),
                None => None,
            },
        }
    }
}

impl Default for SymbolHealth {
    fn default() -> (r: Self)
        ensures
            r@ == spec_zero_health(),
    {
        SymbolHealth {
            total_failures: 0,
            consecutive_failures: 0,
            is_degraded: false,
            last_failure_venue: None,
        }
    }
}

struct HealthEntry {
    symbol: String,
    health: SymbolHealth,
}

spec fn entry_exact(e: HealthEntry) -> bool {
    degraded_flag_exact(e.health@)
}

spec fn health_map(s: Seq<HealthEntry>) -> Map<Seq<char>, SymbolHealthView>
    decreases s.len(),
{
    if s.len() == 0 {
        Map::empty()
    } else {
        health_map(s.drop_last()).insert(s.last().symbol@, s.last().health@)
    }
}

spec fn symbols_unique(s: Seq<HealthEntry>) -> bool {
    forall|i: int, j: int| 0 <= i < j < s.len() ==> s[i].symbol@ != s[j].symbol@
}

proof fn lemma_health_dom(s: Seq<HealthEntry>, k: Seq<char>)
    ensures
        health_map(s).contains_key(k) <==> exists|i: int| 0 <= i < s.len() && s[i].symbol@ == k,
    decreases s.len(),
{
    if s.len() > 0 {
        lemma_health_dom(s.drop_last(), k);
        if health_map(s).contains_key(k) && s.last().symbol@ != k {
            let i = choose|i: int| 0 <= i < s.len() - 1 && s.drop_last()[i].symbol@ == k;
            assert(s[i].symbol@ == k);
        }
        if exists|i: int| 0 <= i < s.len() && s[i].symbol@ == k {
            let i = choose|i: int| 0 <= i < s.len() && s[i].symbol@ == k;
            if i < s.len() - 1 {
                assert(s.drop_last()[i].symbol@ == k);
            }
        }
    }
}

proof fn lemma_health_at(s: Seq<HealthEntry>, i: int)
    requires
        symbols_unique(s),
        0 <= i < s.len(),
    ensures
        health_map(s).contains_key(s[i].symbol@),
        health_map(s)[s[i].symbol@] == s[i].health@,
    decreases s.len(),
{
    if i < s.len() - 1 {
        let t = s.drop_last();
        assert(t[i] == s[i]);
        lemma_health_at(t, i);
    }
}

proof fn lemma_health_update(s: Seq<HealthEntry>, i: int, e: HealthEntry)
    requires
        symbols_unique(s),
        0 <= i < s.len(),
        e.symbol@ == s[i].symbol@,
    ensures
        symbols_unique(s.update(i, e)),
        health_map(s.update(i, e)) =~= health_map(s).insert(e.symbol@, e.health@),
    decreases s.len(),
{
    let t = s.update(i, e);
    assert forall|a: int, b: int| 0 <= a < b < t.len() implies t[a].symbol@ != t[b].symbol@ by {
        assert(t[a].symbol@ == s[a].symbol@);
        assert(t[b].symbol@ == s[b].symbol@);
    }
    if i == s.len() - 1 {
        assert(t.drop_last() =~= s.drop_last());
    } else {
        assert(t.drop_last() =~= s.drop_last().update(i, e));
        lemma_health_update(s.drop_last(), i, e);
        assert(s.last().symbol@ != e.symbol@);
    }
}

proof fn lemma_health_push(s: Seq<HealthEntry>, e: HealthEntry)
    requires
        symbols_unique(s),
        !health_map(s).contains_key(e.symbol@),
    ensures
        symbols_unique(s.push(e)),
        health_map(s.push(e)) == health_map(s).insert(e.symbol@, e.health@),
{
    lemma_health_dom(s, e.symbol@);
    let t = s.push(e);
    assert(t.drop_last() =~= s);
    assert forall|a: int, b: int| 0 <= a < b < t.len() implies t[a].symbol@ != t[b].symbol@ by {
        if b == s.len() {
            assert(t[a] == s[a]);
        } else {
            assert(t[a] == s[a]);
            assert(t[b] == s[b]);
        }
    }
}

/// Registry of per-symbol adapter health.
pub struct AdapterHealthRegistry {
    entries: Vec<HealthEntry>,
}

impl AdapterHealthRegistry {
    #[verifier::type_invariant]
    spec fn wf(self) -> bool {
        &&& symbols_unique(self.entries@)
        &&& forall|i: int|
            0 <= i < self.entries@.len() ==> entry_exact(#[trigger] self.entries@[i])
    }

    /// Health by symbol.
    pub closed spec fn view(&self) -> Map<Seq<char>, SymbolHealthView> {
        health_map(self.entries@)
    }

    /// Health the registry reports for `symbol`.
    pub open spec fn health_of(&self, symbol: Seq<char>) -> SymbolHealthView {
        if self@.contains_key(symbol) {
            self@[symbol]
        } else {
            spec_zero_health()
        }
    }

    /// An empty registry.
    pub fn new() -> (r: Self)
        ensures
            r@ == Map::<Seq<char>, SymbolHealthView>::empty(),
    {
        AdapterHealthRegistry { entries: Vec::new() }
    }

    fn find(&self, symbol: &str) -> (r: Option<usize>)
        ensures
            r matches Some(i) ==> i < self.entries@.len() && self.entries@[i as int].symbol@
                == symbol@ && self@.contains_key(symbol@) && self@[symbol@]
                == self.entries@[i as int].health@ && degraded_flag_exact(
                self.entries@[i as int].health@,
            ),
            r is None ==> !self@.contains_key(symbol@),
    {
        proof {
            use_type_invariant(self);
        }
        let key = symbol.to_owned();
        let mut i: usize = 0;
        while i < self.entries.len()
            invariant
                i <= self.entries@.len(),
                key@ == symbol@,
                symbols_unique(self.entries@),
                forall|j: int| 0 <= j < self.entries@.len() ==> entry_exact(#[trigger] self.entries@[j]),
                forall|j: int| 0 <= j < i ==> self.entries@[j].symbol@ != symbol@,
            decreases self.entries@.len() - i,
        {
            if self.entries[i].symbol == key {
                proof {
                    lemma_health_at(self.entries@, i as int);
                    assert(entry_exact(self.entries@[i as int]));
                }
                return Some(i);
            }
            i = i + 1;
        }
        proof {
            lemma_health_dom(self.entries@, symbol@);
        }
        None
    }

    /// Record the outcome of one tick's fetches for `symbol`; `failures`
    /// lists the venues whose fetch failed (empty: every fetch succeeded).
    pub fn record_tick(&mut self, symbol: &str, failures: &[(Venue, &str)])
        ensures
            final(self)@ == old(self)@.insert(
                symbol@,
                spec_after_tick(old(self).health_of(symbol@), failures@),
            ),
    {
        proof {
            use_type_invariant(&*self);
        }
        let found = self.find(symbol);
        let mut h = match found {
            Some(i) => self.entries[i].health.clone(),
            None => SymbolHealth::default(),
        };
        if failures.len() == 0 {
            h.consecutive_failures = 0;
            h.is_degraded = false;
        } else {
            let n = #[verifier::truncate] (failures.len() as u32);
            h.total_failures = h.total_failures.saturating_add(n);
            h.consecutive_failures = h.consecutive_failures.saturating_add(1);
            if h.consecutive_failures >= DEGRADATION_THRESHOLD {
                h.is_degraded = true;
            }
            h.last_failure_venue = Some(failures[0].0.debug_name().to_owned());
        }
        let e = HealthEntry { symbol: symbol.to_owned(), health: h };
        let mut entries: Vec<HealthEntry> = Vec::new();
        std::mem::swap(&mut entries, &mut self.entries);
        proof {
            lemma_tick_keeps_degraded_flag_exact(old(self).health_of(symbol@), failures@);
        }
        match found {
            Some(i) => {
                proof {
                    lemma_health_update(entries@, i as int, e);
                }
                entries.set(i, e);
            },
            None => {
                proof {
                    lemma_health_push(entries@, e);
                }
                entries.push(e);
            },
        }
        proof {
            assert forall|j: int| 0 <= j < entries@.len() implies entry_exact(#[trigger] entries@[j]) by {
                if j < old(self).entries@.len() && !(found == Some(j as usize)) {
                    assert(entries@[j] == old(self).entries@[j]);
                }
            }
        }
        self.entries = entries;
    }

    /// Snapshot of the health of `symbol`; all-zero when it has no history.
    pub fn health_for(&self, symbol: &str) -> (r: SymbolHealth)
        ensures
            r@ == self.health_of(symbol@),
            degraded_flag_exact(r@),
    {
        match self.find(symbol) {
            Some(i) => self.entries[i].health.clone(),
            None => SymbolHealth::default(),
        }
    }
}

/// A tick keeps the degraded flag exact: it is set exactly while the
/// consecutive-failure count is at or above the threshold.
pub proof fn lemma_tick_keeps_degraded_flag_exact(h: SymbolHealthView, failures: Seq<(Venue, &str)>)
    requires
        degraded_flag_exact(h),
    ensures
        degraded_flag_exact(spec_after_tick(h, failures)),
{
}

/// The total failure count never decreases, and a clean tick keeps the
/// historical total and last failing venue while clearing the streak.
pub proof fn lemma_tick_total_monotone(h: SymbolHealthView, failures: Seq<(Venue, &str)>)
    ensures
        spec_after_tick(h, failures).total_failures >= h.total_failures,
        failures.len() == 0 ==> spec_after_tick(h, failures).total_failures == h.total_failures
            && spec_after_tick(h, failures).last_failure_venue == h.last_failure_venue
            && spec_after_tick(h, failures).consecutive_failures == 0
            && !spec_after_tick(h, failures).is_degraded,
{
}

/// Recording a tick for one symbol leaves every other symbol's health as
/// it was.
pub proof fn lemma_symbols_independent(
    before: Map<Seq<char>, SymbolHealthView>,
    symbol: Seq<char>,
    h: SymbolHealthView,
    other: Seq<char>,
)
    requires
        other != symbol,
    ensures
        before.insert(symbol, h).contains_key(other) == before.contains_key(other),
        before.contains_key(other) ==> before.insert(symbol, h)[other] == before[other],
{
}

} // verus!
