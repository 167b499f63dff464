//! Chaos schedule for an adapter decorator: how much latency to inject on
//! each call and which calls to fail, deterministically from a call
//! counter and a seeded generator. Latencies in milliseconds.

use vstd::prelude::*;
use crate::execution::{jitter_from_state, lcg_next, spec_jitter_ms, LCG_INCREMENT, LCG_MULTIPLIER};
use crate::tracing_redact::{decimal, push_decimal_u64};

verus! {

/// Latency to inject on every call.
#[derive(Debug, Clone)]
pub enum LatencyProfile {
    /// The same delay on every call.
    Constant(u64),
    /// Uniform in `[min, max]`, driven by the seeded generator.
    Uniform { min: u64, max: u64 },
    /// A fixed sequence, replayed cyclically by call index.
    Sequence(Vec<u64>),
    /// No delay.
    Disabled,
}

/// Which calls fail.
#[derive(Debug, Clone)]
pub enum FailureProfile {
    /// Calls `start`, `start + every`, `start + 2 every`, ... fail.
    EveryNth { every: u64, start: u64 },
    /// A fixed script (`true` = succeed), replayed cyclically by call index.
    Scripted(Vec<bool>),
    /// No failure.
    Disabled,
}

/// Default generator seed.
pub const DEFAULT_SEED: u64 = 42;

/// Deterministic chaos schedule.
#[derive(Debug)]
pub struct ChaosSchedule {
    latency: LatencyProfile,
    failure: FailureProfile,
    calls: u64,
    rng_state: u64,
}

/// Whether call `idx` fails under `f`.
pub open spec fn spec_should_fail(f: FailureProfile, idx: u64) -> bool {
    match f {
        FailureProfile::Disabled => false,
        FailureProfile::EveryNth { every, start } => every > 0 && idx >= start && (idx - start)
            % (every as int) == 0,
        FailureProfile::Scripted(seq) => seq@.len() > 0 && !seq@[((idx as usize) as int) % (
        seq@.len() as int)],
    }
}

/// Latency of call `idx` under `l` with generator state `state` before the
/// call; `Uniform` advances the generator, the other profiles do not.
pub open spec fn spec_next_latency(l: LatencyProfile, idx: u64, state: u64) -> int {
    match l {
        LatencyProfile::Disabled => 0,
        LatencyProfile::Constant(d) => d as int,
        LatencyProfile::Uniform { min, max } => {
            let span = if max >= min {
                (max - min) as u64
            } else {
                0u64
            };
            min + spec_jitter_ms(lcg_next(state), span)
        },
        LatencyProfile::Sequence(seq) => if seq@.len() == 0 {
            0
        } else {
            seq@[((idx as usize) as int) % (seq@.len() as int)] as int
        },
    }
}

impl ChaosSchedule {
    /// Latency profile.
    pub closed spec fn latency_profile(&self) -> LatencyProfile {
        self.latency
    }

    /// Failure profile.
    pub closed spec fn failure_profile(&self) -> FailureProfile {
        self.failure
    }

    /// Calls counted so far.
    pub closed spec fn call_count(&self) -> u64 {
        self.calls
    }

    /// Generator state.
    pub closed spec fn state(&self) -> u64 {
        self.rng_state
    }

    /// Schedule with the default seed.
    pub fn new(latency: LatencyProfile, failure: FailureProfile) -> (r: Self)
        ensures
            r.latency_profile() == latency,
            r.failure_profile() == failure,
            r.call_count() == 0,
            r.state() == DEFAULT_SEED,
    {
        Self::with_seed(latency, failure, DEFAULT_SEED)
    }

    /// Schedule with generator seed `seed`.
    pub fn with_seed(latency: LatencyProfile, failure: FailureProfile, seed: u64) -> (r: Self)
        ensures
            r.latency_profile() == latency,
            r.failure_profile() == failure,
            r.call_count() == 0,
            r.state() == seed,
    {
        ChaosSchedule { latency, failure, calls: 0, rng_state: seed }
    }

    /// Pacifica-like defaults: 200–400 ms uniform latency, one failure
    /// every 200 calls from call 100 on.
    pub fn pacifica_like() -> (r: Self)
        ensures
            r.latency_profile() == (LatencyProfile::Uniform { min: 200, max: 400 }),
            r.failure_profile() == (FailureProfile::EveryNth { every: 200, start: 100 }),
            r.call_count() == 0,
            r.state() == DEFAULT_SEED,
    {
        Self::new(
            LatencyProfile::Uniform { min: 200, max: 400 },
            FailureProfile::EveryNth { every: 200, start: 100 },
        )
    }

    /// Index of this call; the counter moves on (wrapping).
    pub fn next_call(&mut self) -> (r: u64)
        ensures
            r == old(self).call_count(),
            final(self).call_count() == (if old(self).call_count() == u64::MAX {
                0
            } else {
                (old(self).call_count() + 1) as u64
            }),
            final(self).state() == old(self).state(),
            final(self).latency_profile() == old(self).latency_profile(),
            final(self).failure_profile() == old(self).failure_profile(),
    {
        let idx = self.calls;
        self.calls = self.calls.wrapping_add(1);
        idx
    }

    /// Latency to inject on call `call_idx`.
    pub fn next_latency(&mut self, call_idx: u64) -> (r: u64)
        requires
            spec_next_latency(old(self).latency_profile(), call_idx, old(self).state()) <= u64::MAX,
        ensures
            r == spec_next_latency(old(self).latency_profile(), call_idx, old(self).state()),
            final(self).state() == (if old(self).latency_profile() is Uniform {
                lcg_next(old(self).state())
            } else {
                old(self).state()
            }),
            final(self).call_count() == old(self).call_count(),
            final(self).latency_profile() == old(self).latency_profile(),
            final(self).failure_profile() == old(self).failure_profile(),
    {
        match &self.latency {
            LatencyProfile::Disabled => 0,
            LatencyProfile::Constant(d) => *d,
            LatencyProfile::Uniform { min, max } => {
                let min_ms = *min;
                let max_ms = *max;
                let next = self.rng_state.wrapping_mul(LCG_MULTIPLIER).wrapping_add(LCG_INCREMENT);
                self.rng_state = next;
                let span = max_ms.saturating_sub(min_ms);
                let jitter = jitter_from_state(next, span);
                min_ms + jitter
            },
            LatencyProfile::Sequence(seq) => {
                if seq.len() == 0 {
                    0
                } else {
                    #[verifier::truncate]
                    let i = (call_idx as usize) % seq.len();
                    seq[i]
                }
            },
        }
    }

    /// Whether call `call_idx` fails.
    pub fn should_fail(&self, call_idx: u64) -> (r: bool)
        ensures
            r == spec_should_fail(self.failure_profile(), call_idx),
    {
        match &self.failure {
            FailureProfile::Disabled => false,
            FailureProfile::EveryNth { every, start } => {
                *every > 0 && call_idx >= *start && (call_idx - *start) % *every == 0
            },
            FailureProfile::Scripted(seq) => {
                if seq.len() == 0 {
                    false
                } else {
                    #[verifier::truncate]
                    let i = (call_idx as usize) % seq.len();
                    !seq[i]
                }
            },
        }
    }
}

/// Error text of an injected failure on call `idx`.
pub fn failure_message(idx: u64) -> (r: String)
    ensures
        r@ == "chaos: scripted failure on call #"@ + decimal(idx as nat),
{
    let mut m = String::from_str("chaos: scripted failure on call #");
    push_decimal_u64(&mut m, idx);
    m
}

/// A uniform latency stays within `[min, max]` when `min <= max` and the
/// span is below 2^53.
pub proof fn lemma_uniform_latency_in_range(min: u64, max: u64, idx: u64, state: u64)
    requires
        min <= max,
        max - min < 0x20_0000_0000_0000,
    ensures
        min <= spec_next_latency(LatencyProfile::Uniform { min, max }, idx, state) <= max,
{
    crate::execution::lemma_jitter_bounded(lcg_next(state), (max - min) as u64);
}

/// `EveryNth` fails exactly on calls `start + k * every`.
pub proof fn lemma_every_nth_schedule(every: u64, start: u64, k: nat)
    requires
        every > 0,
        start + k * every <= u64::MAX,
    ensures
        spec_should_fail(FailureProfile::EveryNth { every, start }, (start + k * every) as u64),
{
    assert(((start + k * every) - start) % (every as int) == 0) by (nonlinear_arith)
        requires
            every > 0,
    ;
}

} // verus!
