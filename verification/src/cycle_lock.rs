//! Per-symbol registry of funding-cycle locks. Every proposed pair decision
//! goes through `CycleLockRegistry::enforce_decision`, so a symbol's locked
//! pair is held for the whole cycle and mid-cycle flips or rebalances are
//! blocked unless an emergency override is used.
//!
//! A pair `(long_venue, short_venue)` is mapped onto a direction by venue
//! ordinal (`pair_to_h`); since two different pairs can share a direction,
//! the registry also compares the full pair identity on held ticks.

use vstd::prelude::*;
use crate::binary64::{spec_is_finite, spec_is_nonneg, ZERO};
use crate::decision::PairDecision;
use crate::funding_cycle_lock::{
    enforce, spec_enforce, spec_is_locked, spec_open_cycle, spec_would_violate_lock, CycleState,
    EnforceResult, DEFAULT_CYCLE_SECONDS,
};
use crate::lock_typestate::{
    spec_open_direction, EmergencyOverride, Locked, TypestateLock, Unlocked,
};
use crate::venue::{venue_ordinal, Venue};

verus! {

/// Direction encoding of a pair: +1 if the long venue has the lower ordinal,
/// -1 if the higher, 0 if both legs name the same venue.
pub open spec fn spec_pair_to_h(long: Venue, short: Venue) -> i8 {
    if venue_ordinal(long) < venue_ordinal(short) {
        1i8
    } else if venue_ordinal(long) > venue_ordinal(short) {
        -1i8
    } else {
        0i8
    }
}

/// Canonical venue-ordering direction of a pair.
pub fn pair_to_h(long: Venue, short: Venue) -> (r: i8)
    ensures
        r == spec_pair_to_h(long, short),
{
    let lo = long.ordinal();
    let so = short.ordinal();
    if lo < so {
        1
    } else if lo > so {
        -1
    } else {
        0
    }
}

/// Swapping the legs of a pair of distinct venues negates its direction,
/// which is never flat; so while a cycle is locked on one orientation, the
/// swapped one would violate the lock.
pub proof fn lemma_flip_is_caught(long: Venue, short: Venue, state: Option<CycleState>, now_ms: int)
    requires
        long != short,
    ensures
        spec_pair_to_h(short, long) == -spec_pair_to_h(long, short),
        spec_pair_to_h(long, short) != 0,
        spec_is_locked(state, now_ms) && state.unwrap().h_c == spec_pair_to_h(long, short)
            ==> spec_would_violate_lock(state, now_ms, spec_pair_to_h(short, long)),
{
    assert(venue_ordinal(long) != venue_ordinal(short)) by {
        match long {
            Venue::Pacifica => {},
            Venue::Backpack => {},
            Venue::Hyperliquid => {},
            Venue::Lighter => {},
        }
        match short {
            Venue::Pacifica => {},
            Venue::Backpack => {},
            Venue::Hyperliquid => {},
            Venue::Lighter => {},
        }
    }
}

/// Outcome of enforcing the lock on a proposed decision.
#[derive(Debug)]
pub struct EnforceOutcome {
    /// The decision to act on; may be the locked one rather than the proposal.
    pub effective: Option<PairDecision>,
    /// Result of the underlying lock.
    pub raw: EnforceResult,
    /// A different pair than the locked one was proposed and blocked.
    pub pair_flip_blocked: bool,
    /// This call opened a fresh cycle for the symbol.
    pub opened_new_cycle: bool,
}

/// The typed lock kept beside the raw cycle state.
enum RegistryPhase {
    Locked(TypestateLock<Locked>),
    EmergencyOverride(TypestateLock<EmergencyOverride>),
}

struct SymbolLock {
    symbol: String,
    state: CycleState,
    phase: RegistryPhase,
    locked_decision: PairDecision,
}

/// What the registry holds for one symbol.
pub struct LockEntry {
    /// The raw cycle state.
    pub state: CycleState,
    /// The typed lock is in the emergency-override phase.
    pub overridden: bool,
    /// The decision locked for the symbol.
    pub decision: PairDecision,
}

spec fn phase_state(p: RegistryPhase) -> Option<CycleState> {
    match p {
        RegistryPhase::Locked(l) => l.state(),
        RegistryPhase::EmergencyOverride(l) => l.state(),
    }
}

spec fn phase_overridden(p: RegistryPhase) -> bool {
    p is EmergencyOverride
}

spec fn entry_of(e: SymbolLock) -> LockEntry {
    LockEntry { state: e.state, overridden: phase_overridden(e.phase), decision: e.locked_decision }
}

/// A locked (not overridden) entry's decision carries its cycle's notional
/// and direction.
spec fn decision_matches_state(d: PairDecision, s: CycleState) -> bool {
    d.notional_usd == s.n_c && spec_pair_to_h(d.long_venue, d.short_venue) == s.h_c
}

spec fn entry_ok(e: SymbolLock) -> bool {
    &&& e.state.cycle_seconds > 0
    &&& phase_state(e.phase) == Some(e.state)
    &&& !phase_overridden(e.phase) ==> decision_matches_state(e.locked_decision, e.state)
}

spec fn entries_map(s: Seq<SymbolLock>) -> Map<Seq<char>, LockEntry>
    decreases s.len(),
{
    if s.len() == 0 {
        Map::empty()
    } else {
        entries_map(s.drop_last()).insert(s.last().symbol@, entry_of(s.last()))
    }
}

spec fn keys_unique(s: Seq<SymbolLock>) -> bool {
    forall|i: int, j: int| 0 <= i < j < s.len() ==> s[i].symbol@ != s[j].symbol@
}

proof fn lemma_map_dom(s: Seq<SymbolLock>, k: Seq<char>)
    ensures
        entries_map(s).contains_key(k) <==> exists|i: int| 0 <= i < s.len() && s[i].symbol@ == k,
    decreases s.len(),
{
    if s.len() > 0 {
        lemma_map_dom(s.drop_last(), k);
        if entries_map(s).contains_key(k) && s.last().symbol@ != k {
            let i = choose|i: int| 0 <= i < s.len() - 1 && s.drop_last()[i].symbol@ == k;
            assert(s[i].symbol@ == k);
        }
        if exists|i: int| 0 <= i < s.len() && s[i].symbol@ == k {
            let i = choose|i: int| 0 <= i < s.len() && s[i].symbol@ == k;
            if i < s.len() - 1 {
                assert(s.drop_last()[i].symbol@ == k);
            }
        }
    }
}

proof fn lemma_map_at(s: Seq<SymbolLock>, i: int)
    requires
        keys_unique(s),
        0 <= i < s.len(),
    ensures
        entries_map(s).contains_key(s[i].symbol@),
        entries_map(s)[s[i].symbol@] == entry_of(s[i]),
    decreases s.len(),
{
    if i < s.len() - 1 {
        let t = s.drop_last();
        assert(t[i] == s[i]);
        lemma_map_at(t, i);
    }
}

proof fn lemma_map_remove(s: Seq<SymbolLock>, i: int)
    requires
        keys_unique(s),
        0 <= i < s.len(),
    ensures
        keys_unique(s.remove(i)),
        entries_map(s.remove(i)) =~= entries_map(s).remove(s[i].symbol@),
{
    let t = s.remove(i);
    let k = s[i].symbol@;
    assert forall|a: int, b: int| 0 <= a < b < t.len() implies t[a].symbol@ != t[b].symbol@ by {
        let a2 = if a < i { a } else { a + 1 };
        let b2 = if b < i { b } else { b + 1 };
        assert(t[a] == s[a2]);
        assert(t[b] == s[b2]);
    }
    assert forall|k2: Seq<char>| #[trigger] entries_map(t).contains_key(k2) <==> entries_map(s).remove(k).contains_key(k2) by {
        lemma_map_dom(t, k2);
        lemma_map_dom(s, k2);
        if exists|j: int| 0 <= j < t.len() && t[j].symbol@ == k2 {
            let j = choose|j: int| 0 <= j < t.len() && t[j].symbol@ == k2;
            let j2 = if j < i { j } else { j + 1 };
            assert(t[j] == s[j2]);
        }
        if k2 != k && exists|j: int| 0 <= j < s.len() && s[j].symbol@ == k2 {
            let j = choose|j: int| 0 <= j < s.len() && s[j].symbol@ == k2;
            assert(j != i);
            let j2 = if j < i { j } else { j - 1 };
            assert(t[j2] == s[j]);
        }
    }
    assert forall|k2: Seq<char>| #[trigger] entries_map(t).contains_key(k2) implies entries_map(t)[k2]
        == entries_map(s).remove(k)[k2] by {
        lemma_map_dom(t, k2);
        let j = choose|j: int| 0 <= j < t.len() && t[j].symbol@ == k2;
        let j2 = if j < i { j } else { j + 1 };
        assert(t[j] == s[j2]);
        lemma_map_at(t, j);
        lemma_map_at(s, j2);
    }
}

proof fn lemma_map_push(s: Seq<SymbolLock>, e: SymbolLock)
    requires
        keys_unique(s),
        !entries_map(s).contains_key(e.symbol@),
    ensures
        keys_unique(s.push(e)),
        entries_map(s.push(e)) == entries_map(s).insert(e.symbol@, entry_of(e)),
{
    let t = s.push(e);
    assert(t.drop_last() =~= s);
    assert forall|a: int, b: int| 0 <= a < b < t.len() implies t[a].symbol@ != t[b].symbol@ by {
        if b == s.len() {
            lemma_map_dom(s, e.symbol@);
            assert(t[a] == s[a]);
        } else {
            assert(t[a] == s[a]);
            assert(t[b] == s[b]);
        }
    }
}

/// Every entry in the locked phase holds a decision whose notional is the
/// cycle's locked notional `n_c` and whose pair maps onto the cycle's
/// direction `h_c`.
pub open spec fn spec_locked_entries_consistent(m: Map<Seq<char>, LockEntry>) -> bool {
    forall|k: Seq<char>|
        #[trigger] m.contains_key(k) && !m[k].overridden ==> m[k].decision.notional_usd
            == m[k].state.n_c && spec_pair_to_h(m[k].decision.long_venue, m[k].decision.short_venue)
            == m[k].state.h_c
}

proof fn lemma_view_consistent(s: Seq<SymbolLock>)
    requires
        keys_unique(s),
        forall|i: int| 0 <= i < s.len() ==> entry_ok(#[trigger] s[i]),
    ensures
        spec_locked_entries_consistent(entries_map(s)),
{
    assert forall|k: Seq<char>| #[trigger] entries_map(s).contains_key(k) && !entries_map(
        s,
    )[k].overridden implies entries_map(s)[k].decision.notional_usd == entries_map(s)[k].state.n_c
        && spec_pair_to_h(entries_map(s)[k].decision.long_venue, entries_map(s)[k].decision.short_venue)
        == entries_map(s)[k].state.h_c by {
        lemma_map_dom(s, k);
        let i = choose|i: int| 0 <= i < s.len() && s[i].symbol@ == k;
        lemma_map_at(s, i);
        assert(entry_ok(s[i]));
    }
}

/// Direction a proposal is enforced with (no proposal: flat).
pub open spec fn spec_proposed_h(proposed: Option<PairDecision>) -> i8 {
    match proposed {
        Some(d) => spec_pair_to_h(d.long_venue, d.short_venue),
        None => 0i8,
    }
}

/// Notional a proposal is enforced with (no proposal: zero).
pub open spec fn spec_proposed_n(proposed: Option<PairDecision>) -> u64 {
    match proposed {
        Some(d) => d.notional_usd,
        None => ZERO,
    }
}

/// Two decisions name the same pair of legs on the same symbol.
pub open spec fn spec_same_pair(a: PairDecision, b: PairDecision) -> bool {
    a.long_venue == b.long_venue && a.short_venue == b.short_venue && a.symbol@ == b.symbol@
}

/// The raw cycle state held for `key`, if any.
pub open spec fn spec_entry_state(m: Map<Seq<char>, LockEntry>, key: Seq<char>) -> Option<CycleState> {
    if m.contains_key(key) {
        Some(m[key].state)
    } else {
        None
    }
}

/// The typed lock accepts an override towards direction `h` and notional `n`
/// (a direction of +1 or -1, a finite non-negative notional).
pub open spec fn spec_override_accepts(h: i8, n: u64) -> bool {
    spec_open_direction(h) && spec_is_finite(n) && spec_is_nonneg(n)
}

/// What `enforce_decision` does to the registry and what it returns.
pub open spec fn spec_enforce_decision(
    m: Map<Seq<char>, LockEntry>,
    key: Seq<char>,
    now_ms: int,
    proposed: Option<PairDecision>,
    emergency_override: bool,
    cycle_seconds: i64,
) -> (Map<Seq<char>, LockEntry>, EnforceOutcome) {
    let state = spec_entry_state(m, key);
    let h = spec_proposed_h(proposed);
    let n = spec_proposed_n(proposed);
    let (next, raw) = spec_enforce(state, now_ms, h, n, emergency_override, cycle_seconds);
    if raw.opened_new_cycle {
        match proposed {
            Some(d) => (
                m.insert(key, LockEntry { state: next.unwrap(), overridden: false, decision: d }),
                EnforceOutcome { effective: Some(d), raw, pair_flip_blocked: false, opened_new_cycle: true },
            ),
            None => (
                m.remove(key),
                EnforceOutcome { effective: None, raw, pair_flip_blocked: false, opened_new_cycle: true },
            ),
        }
    } else if raw.emergency_override_used {
        let m2 = match proposed {
            Some(d) => if m[key].overridden || spec_override_accepts(h, n) {
                m.insert(key, LockEntry { state: m[key].state, overridden: true, decision: d })
            } else {
                m.remove(key)
            },
            None => m,
        };
        (m2, EnforceOutcome { effective: proposed, raw, pair_flip_blocked: false, opened_new_cycle: false })
    } else if m.contains_key(key) {
        (
            m,
            EnforceOutcome {
                effective: Some(m[key].decision),
                raw,
                pair_flip_blocked: match proposed {
                    Some(p) => !spec_same_pair(m[key].decision, p),
                    None => false,
                },
                opened_new_cycle: false,
            },
        )
    } else {
        (m, EnforceOutcome { effective: proposed, raw, pair_flip_blocked: false, opened_new_cycle: false })
    }
}

/// What `enforce_decision` needs (the raw lock refuses anything else): a
/// proposal's notional is not negative and not NaN.
pub open spec fn spec_enforce_decision_ok(proposed: Option<PairDecision>) -> bool {
    match proposed {
        Some(d) => spec_is_nonneg(d.notional_usd),
        None => true,
    }
}

fn copy_decision(d: Option<&PairDecision>) -> (r: Option<PairDecision>)
    ensures
        r == match d {
            Some(x) => Some(*x),
            None => None::<PairDecision>,
        },
{
    match d {
        Some(x) => Some(x.clone()),
        None => None,
    }
}

/// Per-symbol cycle-lock registry.
pub struct CycleLockRegistry {
    entries: Vec<SymbolLock>,
    cycle_seconds: i64,
}

impl CycleLockRegistry {
    #[verifier::type_invariant]
    spec fn wf(self) -> bool {
        &&& self.cycle_seconds > 0
        &&& keys_unique(self.entries@)
        &&& forall|i: int| 0 <= i < self.entries@.len() ==> entry_ok(#[trigger] self.entries@[i])
    }

    /// What the registry holds, by symbol.
    pub closed spec fn view(&self) -> Map<Seq<char>, LockEntry> {
        entries_map(self.entries@)
    }

    /// The cadence (seconds) of every cycle the registry opens.
    pub closed spec fn cadence(&self) -> i64 {
        self.cycle_seconds
    }

    /// An empty registry with the default hourly cadence.
    pub fn new() -> (r: Self)
        ensures
            r@ == Map::<Seq<char>, LockEntry>::empty(),
            r.cadence() == DEFAULT_CYCLE_SECONDS,
    {
        CycleLockRegistry { entries: Vec::new(), cycle_seconds: DEFAULT_CYCLE_SECONDS }
    }

    /// An empty registry with the given cadence in seconds.
    pub fn with_cycle_seconds(cycle_seconds: i64) -> (r: Self)
        requires
            cycle_seconds > 0,
        ensures
            r@ == Map::<Seq<char>, LockEntry>::empty(),
            r.cadence() == cycle_seconds,
    {
        CycleLockRegistry { entries: Vec::new(), cycle_seconds }
    }

    fn find(&self, key: &String) -> (r: Option<usize>)
        ensures
            r matches Some(i) ==> i < self.entries@.len() && self.entries@[i as int].symbol@ == key@,
            r is None ==> forall|j: int| 0 <= j < self.entries@.len() ==> self.entries@[j].symbol@ != key@,
    {
        let mut i: usize = 0;
        while i < self.entries.len()
            invariant
                i <= self.entries@.len(),
                forall|j: int| 0 <= j < i ==> self.entries@[j].symbol@ != key@,
            decreases self.entries@.len() - i,
        {
            if self.entries[i].symbol == *key {
                return Some(i);
            }
            i = i + 1;
        }
        None
    }

    fn lookup(&self, key: &String) -> (r: Option<usize>)
        ensures
            r matches Some(i) ==> i < self.entries@.len() && self.entries@[i as int].symbol@ == key@
                && self@.contains_key(key@) && self@[key@]
                == entry_of(self.entries@[i as int]) && entry_ok(self.entries@[i as int]),
            r is None ==> !self@.contains_key(key@),
    {
        proof {
            use_type_invariant(self);
        }
        let r = self.find(key);
        proof {
            lemma_map_dom(self.entries@, key@);
            if let Some(i) = r {
                lemma_map_at(self.entries@, i as int);
            }
        }
        r
    }

    fn take(&mut self, key: &String) -> (r: Option<SymbolLock>)
        ensures
            final(self)@ == old(self)@.remove(key@),
            final(self).cadence() == old(self).cadence(),
            r matches Some(e) ==> e.symbol@ == key@ && old(self)@.contains_key(key@) && old(self)@[key@]
                == entry_of(e) && entry_ok(e),
            r is None ==> !old(self)@.contains_key(key@),
    {
        proof {
            use_type_invariant(&*self);
        }
        match self.lookup(key) {
            Some(i) => {
                proof {
                    lemma_map_remove(self.entries@, i as int);
                }
                let mut entries: Vec<SymbolLock> = Vec::new();
                std::mem::swap(&mut entries, &mut self.entries);
                let e = entries.remove(i);
                self.entries = entries;
                Some(e)
            },
            None => {
                proof {
                    assert(self@.remove(key@) =~= self@);
                }
                None
            },
        }
    }

    fn put(&mut self, e: SymbolLock)
        requires
            entry_ok(e),
        ensures
            final(self)@ == old(self)@.insert(e.symbol@, entry_of(e)),
            final(self).cadence() == old(self).cadence(),
    {
        let key = e.symbol.clone();
        let _ = self.take(&key);
        proof {
            use_type_invariant(&*self);
            lemma_map_push(self.entries@, e);
            assert(old(self)@.remove(key@).insert(e.symbol@, entry_of(e)) =~= old(self)@.insert(
                e.symbol@,
                entry_of(e),
            ));
        }
        let mut entries: Vec<SymbolLock> = Vec::new();
        std::mem::swap(&mut entries, &mut self.entries);
        entries.push(e);
        self.entries = entries;
    }
    /// Current cycle state for `symbol`, if any.
    pub fn state_for(&self, symbol: &str) -> (r: Option<CycleState>)
        ensures
            r == spec_entry_state(self@, symbol@),
    {
        let key = symbol.to_owned();
        match self.lookup(&key) {
            Some(i) => Some(self.entries[i].state),
            None => None,
        }
    }

    /// Currently locked decision for `symbol`, if any.
    pub fn locked_decision_for(&self, symbol: &str) -> (r: Option<&PairDecision>)
        ensures
            r matches Some(d) ==> self@.contains_key(symbol@) && *d == self@[symbol@].decision,
            r is None ==> !self@.contains_key(symbol@),
    {
        let key = symbol.to_owned();
        match self.lookup(&key) {
            Some(i) => Some(&self.entries[i].locked_decision),
            None => None,
        }
    }

    /// True iff the typed lock for `symbol` is in the `Locked` phase.
    pub fn is_typed_locked(&self, symbol: &str) -> (r: bool)
        ensures
            r == (self@.contains_key(symbol@) && !self@[symbol@].overridden),
    {
        let key = symbol.to_owned();
        match self.lookup(&key) {
            Some(i) => match &self.entries[i].phase {
                RegistryPhase::Locked(_) => true,
                RegistryPhase::EmergencyOverride(_) => false,
            },
            None => false,
        }
    }

    /// True iff the typed lock for `symbol` is in the `EmergencyOverride` phase.
    pub fn is_typed_emergency_override(&self, symbol: &str) -> (r: bool)
        ensures
            r == (self@.contains_key(symbol@) && self@[symbol@].overridden),
    {
        let key = symbol.to_owned();
        match self.lookup(&key) {
            Some(i) => match &self.entries[i].phase {
                RegistryPhase::Locked(_) => false,
                RegistryPhase::EmergencyOverride(_) => true,
            },
            None => false,
        }
    }

    /// Enforce the cycle lock on `proposed` for `symbol` at `now_ms`.
    ///
    /// - No active lock: a new cycle opens at the proposal, which is stored
    ///   and returned (no proposal: the symbol's entry is dropped).
    /// - Active lock, no override: the locked decision is returned; a
    ///   proposal naming another pair is reported as blocked.
    /// - Emergency override that bypasses an active lock: the proposal is
    ///   returned and the typed lock moves to the override phase.
    pub fn enforce_decision(
        &mut self,
        symbol: &str,
        now_ms: i64,
        proposed: Option<&PairDecision>,
        emergency_override: bool,
    ) -> (out: EnforceOutcome)
        requires
            spec_enforce_decision_ok(
                match proposed {
                    Some(d) => Some(*d),
                    None => None::<PairDecision>,
                },
            ),
        ensures
            (final(self)@, out) == spec_enforce_decision(
                old(self)@,
                symbol@,
                now_ms as int,
                match proposed {
                    Some(d) => Some(*d),
                    None => None::<PairDecision>,
                },
                emergency_override,
                old(self).cadence(),
            ),
            final(self).cadence() == old(self).cadence(),
            spec_locked_entries_consistent(old(self)@),
            spec_locked_entries_consistent(final(self)@),
    {
        proof {
            use_type_invariant(&*self);
            lemma_view_consistent(self.entries@);
        }
        let key = symbol.to_owned();
        let idx = self.lookup(&key);
        let mut state: Option<CycleState> = match idx {
            Some(i) => Some(self.entries[i].state),
            None => None,
        };
        let (h, n) = match proposed {
            Some(d) => (pair_to_h(d.long_venue, d.short_venue), d.notional_usd),
            None => (0i8, ZERO),
        };
        let raw = enforce(&mut state, now_ms, h, n, emergency_override, self.cycle_seconds);
        if raw.opened_new_cycle {
            match proposed {
                Some(d) => {
                    let new_state = match state {
                        Some(s) => s,
                        None => CycleState { cycle_index: 0, h_c: 0, n_c: ZERO, opened_at_ms: 0, cycle_seconds: 1 },
                    };
                    // the typed lock witnesses Unlocked -> Locked; it opens only
                    // a directed cycle with a positive notional, so a flat or
                    // zero one is locked as the raw lock opened it
                    let typed = match TypestateLock::<Unlocked>::with_cycle_seconds(
                        self.cycle_seconds,
                    ).open(now_ms, h, n) {
                        Ok(l) => l,
                        Err(_) => TypestateLock::<Unlocked>::with_cycle_seconds(
                            self.cycle_seconds,
                        ).lock_opened(new_state),
                    };
                    self.put(
                        SymbolLock {
                            symbol: key,
                            state: new_state,
                            phase: RegistryPhase::Locked(typed),
                            locked_decision: d.clone(),
                        },
                    );
                    EnforceOutcome {
                        effective: Some(d.clone()),
                        raw,
                        pair_flip_blocked: false,
                        opened_new_cycle: true,
                    }
                },
                None => {
                    let _ = self.take(&key);
                    EnforceOutcome { effective: None, raw, pair_flip_blocked: false, opened_new_cycle: true }
                },
            }
        } else if raw.emergency_override_used {
            if let Some(d) = proposed {
                if let Some(e) = self.take(&key) {
                    let SymbolLock { symbol: sym, state: prev_state, phase, locked_decision: _ } = e;
                    let kept = match state {
                        Some(s) => s,
                        None => prev_state,
                    };
                    match phase {
                        RegistryPhase::Locked(locked) => match locked.force_override(now_ms, h, n) {
                            Ok(eo) => {
                                self.put(
                                    SymbolLock {
                                        symbol: sym,
                                        state: kept,
                                        phase: RegistryPhase::EmergencyOverride(eo),
                                        locked_decision: d.clone(),
                                    },
                                );
                            },
                            Err(_) => {},
                        },
                        RegistryPhase::EmergencyOverride(eo) => {
                            self.put(
                                SymbolLock {
                                    symbol: sym,
                                    state: kept,
                                    phase: RegistryPhase::EmergencyOverride(eo),
                                    locked_decision: d.clone(),
                                },
                            );
                        },
                    }
                }
            }
            EnforceOutcome {
                effective: copy_decision(proposed),
                raw,
                pair_flip_blocked: false,
                opened_new_cycle: false,
            }
        } else {
            match idx {
                Some(i) => {
                    let locked = &self.entries[i].locked_decision;
                    let blocked = match proposed {
                        Some(p) => !(locked.long_venue == p.long_venue && locked.short_venue
                            == p.short_venue && locked.symbol == p.symbol),
                        None => false,
                    };
                    EnforceOutcome {
                        effective: Some(locked.clone()),
                        raw,
                        pair_flip_blocked: blocked,
                        opened_new_cycle: false,
                    }
                },
                None => EnforceOutcome {
                    effective: copy_decision(proposed),
                    raw,
                    pair_flip_blocked: false,
                    opened_new_cycle: false,
                },
            }
        }
    }
}

/// While a symbol's cycle is open and no override is used, the registry hands
/// back the locked decision, keeps its entries as they were, and reports a
/// proposal that names another pair as blocked.
pub proof fn lemma_registry_holds_locked_pair(
    m: Map<Seq<char>, LockEntry>,
    key: Seq<char>,
    now_ms: int,
    proposed: Option<PairDecision>,
    cycle_seconds: i64,
)
    requires
        m.contains_key(key),
        spec_is_locked(Some(m[key].state), now_ms),
    ensures
        ({
            let (m2, out) = spec_enforce_decision(m, key, now_ms, proposed, false, cycle_seconds);
            &&& m2 == m
            &&& out.effective == Some(m[key].decision)
            &&& !out.opened_new_cycle
            &&& out.pair_flip_blocked == (proposed matches Some(p) && !spec_same_pair(m[key].decision, p))
            &&& (spec_locked_entries_consistent(m) && !m[key].overridden) ==> (out.effective
                matches Some(e) && e.notional_usd == m[key].state.n_c)
        }),
{
}

/// With no active lock and no override, a proposal opens a fresh cycle at
/// its own direction and notional (a zero notional too), is stored in the
/// locked phase, and is returned.
pub proof fn lemma_registry_opens_when_unlocked(
    m: Map<Seq<char>, LockEntry>,
    key: Seq<char>,
    now_ms: int,
    d: PairDecision,
    cycle_seconds: i64,
)
    requires
        !spec_is_locked(spec_entry_state(m, key), now_ms),
    ensures
        ({
            let (m2, out) = spec_enforce_decision(m, key, now_ms, Some(d), false, cycle_seconds);
            &&& out.opened_new_cycle
            &&& out.effective == Some(d)
            &&& !out.pair_flip_blocked
            &&& m2 == m.insert(
                key,
                LockEntry {
                    state: spec_open_cycle(
                        now_ms,
                        spec_pair_to_h(d.long_venue, d.short_venue),
                        d.notional_usd,
                        cycle_seconds,
                    ),
                    overridden: false,
                    decision: d,
                },
            )
        }),
{
}

/// On a held tick (the symbol's cycle is open, no override), a proposal is
/// reported as a blocked flip or rebalance exactly when it differs from the
/// locked decision in its long leg, its short leg or its symbol; the locked
/// decision is handed back either way and the registry is unchanged.
pub proof fn lemma_held_tick_blocks_any_other_pair(
    m: Map<Seq<char>, LockEntry>,
    key: Seq<char>,
    now_ms: int,
    p: PairDecision,
    cycle_seconds: i64,
)
    requires
        m.contains_key(key),
        spec_is_locked(Some(m[key].state), now_ms),
    ensures
        ({
            let (m2, out) = spec_enforce_decision(m, key, now_ms, Some(p), false, cycle_seconds);
            let d = m[key].decision;
            &&& out.pair_flip_blocked == (p.long_venue != d.long_venue || p.short_venue
                != d.short_venue || p.symbol@ != d.symbol@)
            &&& out.effective == Some(d)
            &&& !out.opened_new_cycle
            &&& m2 == m
        }),
{
}

/// An emergency override during an open cycle, with a proposal whose
/// direction or notional differs from the locked ones, lets the proposal
/// through: it is returned, nothing is reported blocked, no cycle opens, the
/// cycle state is kept, and when the typed lock accepts the override (or is
/// already overridden) the proposal becomes the symbol's decision in the
/// override phase. Without such a difference the override is not used and
/// the tick is held like any other.
pub proof fn lemma_override_lets_proposal_through(
    m: Map<Seq<char>, LockEntry>,
    key: Seq<char>,
    now_ms: int,
    p: PairDecision,
    cycle_seconds: i64,
)
    requires
        m.contains_key(key),
        spec_is_locked(Some(m[key].state), now_ms),
    ensures
        ({
            let (m2, out) = spec_enforce_decision(m, key, now_ms, Some(p), true, cycle_seconds);
            let s = m[key].state;
            let h = spec_pair_to_h(p.long_venue, p.short_venue);
            let differs = s.h_c != h || !crate::binary64::spec_num_eq(s.n_c, p.notional_usd);
            &&& differs ==> (out.effective == Some(p) && !out.pair_flip_blocked
                && !out.opened_new_cycle && out.raw.emergency_override_used)
            &&& (differs && (m[key].overridden || spec_override_accepts(h, p.notional_usd))) ==> (
            m2.contains_key(key) && m2[key].state == s && m2[key].overridden && m2[key].decision
                == p)
            &&& !differs ==> (out.effective == Some(m[key].decision) && !out.opened_new_cycle
                && m2 == m)
        }),
{
}

/// Enforcing one symbol leaves every other symbol's entry as it was.
pub proof fn lemma_registry_symbols_independent(
    m: Map<Seq<char>, LockEntry>,
    key: Seq<char>,
    other: Seq<char>,
    now_ms: int,
    proposed: Option<PairDecision>,
    emergency_override: bool,
    cycle_seconds: i64,
)
    requires
        other != key,
    ensures
        ({
            let m2 = spec_enforce_decision(m, key, now_ms, proposed, emergency_override, cycle_seconds).0;
            &&& m2.contains_key(other) == m.contains_key(other)
            &&& m.contains_key(other) ==> m2[other] == m[other]
        }),
{
}

/// After a non-override call with a proposal, the symbol holds a decision
/// whose cycle is open at that instant, and that decision is the one returned.
pub proof fn lemma_registry_enforce_leaves_lock(
    m: Map<Seq<char>, LockEntry>,
    key: Seq<char>,
    now_ms: int,
    d: PairDecision,
    cycle_seconds: i64,
)
    requires
        cycle_seconds > 0,
        i64::MIN <= now_ms <= i64::MAX,
        m.contains_key(key) ==> m[key].state.cycle_seconds > 0,
    ensures
        ({
            let (m2, out) = spec_enforce_decision(m, key, now_ms, Some(d), false, cycle_seconds);
            &&& m2.contains_key(key)
            &&& spec_is_locked(Some(m2[key].state), now_ms)
            &&& out.effective == Some(m2[key].decision)
        }),
{
    let state = spec_entry_state(m, key);
    if !spec_is_locked(state, now_ms) {
        crate::funding_cycle_lock::lemma_enforce_leaves_cycle_open(
            state,
            now_ms,
            spec_proposed_h(Some(d)),
            d.notional_usd,
            cycle_seconds,
        );
    }
}

} // verus!
