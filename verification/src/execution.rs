//! Order-execution building blocks: the signing abstraction, the UUID
//! idempotency key, exponential backoff with jitter, and the retry loop's
//! decision after each submission attempt.

use vstd::prelude::*;
use crate::binary64::{lemma_round_at_most_double, lemma_two_pow_53_63, round_to_binary64, round_u128_to_binary64, two_pow};
use crate::tracing_redact::{decimal, push_decimal};

verus! {

// ─── Signer ─────────────────────────────────────────────────────────────

/// Signature scheme of a venue's authenticated API, over raw message bytes.
pub trait Signer {
    /// The signature this signer gives for `message`.
    spec fn signature_for(&self, message: Seq<u8>) -> Seq<u8>;

    /// Detached signature over `message`.
    fn sign(&self, message: &[u8]) -> (r: Result<Vec<u8>, SignerError>)
        ensures
            r matches Ok(v) ==> v@ == self.signature_for(message@),
    ;

    /// Public key (or address) of the signer.
    fn public_key(&self) -> Vec<u8>;

    /// Identifier that is safe to log.
    fn identity(&self) -> String;
}

/// Why signing failed.
#[derive(Debug, Clone, PartialEq, Eq)]
pub enum SignerError {
    /// No key material.
    MissingKey,
    /// The signing step failed.
    SigningFailed(String),
    /// The key material is malformed.
    InvalidKey(String),
}

/// Human-readable text of a signer error.
pub open spec fn spec_signer_error_text(e: SignerError) -> Seq<char> {
    match e {
        SignerError::MissingKey => "missing key material"@,
        SignerError::SigningFailed(s) => "signing failed: "@ + s@,
        SignerError::InvalidKey(s) => "invalid key: "@ + s@,
    }
}

impl SignerError {
    /// Human-readable text of the error.
    pub fn describe(&self) -> (r: String)
        ensures
            r@ == spec_signer_error_text(*self),
    {
        match self {
            SignerError::MissingKey => String::from_str("missing key material"),
            SignerError::SigningFailed(s) => {
                let mut out = String::from_str("signing failed: ");
                out.append(s.as_str());
                out
            },
            SignerError::InvalidKey(s) => {
                let mut out = String::from_str("invalid key: ");
                out.append(s.as_str());
                out
            },
        }
    }
}

/// A signer that signs nothing: empty signature and key, identity `"noop"`.
pub struct NoopSigner;

impl Signer for NoopSigner {
    open spec fn signature_for(&self, message: Seq<u8>) -> Seq<u8> {
        Seq::empty()
    }

    fn sign(&self, message: &[u8]) -> (r: Result<Vec<u8>, SignerError>)
        ensures
            r matches Ok(v) && v@.len() == 0,
    {
        Ok(Vec::new())
    }

    fn public_key(&self) -> (r: Vec<u8>)
        ensures
            r@.len() == 0,
    {
        Vec::new()
    }

    fn identity(&self) -> (r: String)
        ensures
            r@ == "noop"@,
    {
        String::from_str("noop")
    }
}

// ─── Ed25519 ────────────────────────────────────────────────────────────

/// Length of an Ed25519 seed.
pub const ED25519_SEED_LEN: usize = 32;

/// Length of an Ed25519 signature.
pub const ED25519_SIGNATURE_LEN: usize = 64;

/// The verifying key (32 bytes) that `ed25519_dalek` derives from a 32-byte
/// seed.
pub uninterp spec fn ed25519_public_key(seed: Seq<u8>) -> Seq<u8>;

/// The Ed25519 signature of `message` under the key of `seed`; signing is
/// deterministic (RFC 8032), so it depends on these two alone.
pub uninterp spec fn ed25519_signature(seed: Seq<u8>, message: Seq<u8>) -> Seq<u8>;

/// `ed25519_dalek::SigningKey::from_bytes(seed).verifying_key().to_bytes()`:
/// the verifying key of the seed.
#[verifier::external_body]
fn ed25519_public_key_of(seed: &[u8; 32]) -> (r: [u8; 32])
    ensures
        r@ == ed25519_public_key(seed@),
{
    ed25519_dalek::SigningKey::from_bytes(seed).verifying_key().to_bytes()
}

/// `ed25519_dalek::Signer::sign` with the key of `seed`, as the 64 bytes of
/// `Signature::to_bytes`: the deterministic signature of `message`.
#[verifier::external_body]
fn ed25519_sign_with_seed(seed: &[u8; 32], message: &[u8]) -> (r: Vec<u8>)
    ensures
        r@ == ed25519_signature(seed@, message@),
        r@.len() == ED25519_SIGNATURE_LEN,
{
    let key = ed25519_dalek::SigningKey::from_bytes(seed);
    ed25519_dalek::Signer::sign(&key, message).to_bytes().to_vec()
}

/// 32 bytes from the operating system's random source
/// (`rand::rngs::OsRng` through `RngCore::fill_bytes`, as
/// `SigningKey::generate` draws its seed). Nothing is claimed of the bytes;
/// `OsRng` panics when the operating system's source fails, which no
/// `requires` can rule out.
#[verifier::external_body]
fn os_random_seed() -> (r: [u8; 32]) {
    let mut seed = [0u8; 32];
    rand::RngCore::fill_bytes(&mut rand::rngs::OsRng, &mut seed);
    seed
}

/// Ed25519 signer (Solana-style keys), kept as its 32-byte seed and the
/// verifying key derived from it.
pub struct Ed25519Signer {
    seed: [u8; 32],
    verifying_key_bytes: [u8; 32],
    identity: String,
}

/// Error text for a seed of the wrong length.
pub open spec fn spec_bad_seed_text(len: nat) -> Seq<char> {
    "Ed25519 seed must be 32 bytes, got "@ + decimal(len)
}

impl Ed25519Signer {
    /// Identity of the signer.
    pub closed spec fn identity_view(&self) -> Seq<char> {
        self.identity@
    }

    /// The seed the key was made from.
    pub closed spec fn seed_view(&self) -> Seq<u8> {
        self.seed@
    }

    /// Bytes of the verifying key.
    pub closed spec fn public_key_view(&self) -> Seq<u8> {
        self.verifying_key_bytes@
    }

    /// Signer from a 32-byte seed; any other length is `InvalidKey`.
    pub fn from_seed(seed: &[u8], identity: String) -> (r: Result<Self, SignerError>)
        ensures
            seed@.len() == ED25519_SEED_LEN ==> (r matches Ok(s) && s.identity_view() == identity@
                && s.seed_view() == seed@ && s.public_key_view() == ed25519_public_key(seed@)),
            seed@.len() != ED25519_SEED_LEN ==> (r matches Err(SignerError::InvalidKey(m)) && m@
                == spec_bad_seed_text(seed@.len())),
    {
        if seed.len() != ED25519_SEED_LEN {
            let mut m = String::from_str("Ed25519 seed must be 32 bytes, got ");
            push_decimal(&mut m, seed.len());
            return Err(SignerError::InvalidKey(m));
        }
        let mut arr = [0u8; 32];
        let mut i: usize = 0;
        while i < 32
            invariant
                i <= 32,
                seed@.len() == 32,
                forall|j: int| 0 <= j < i ==> arr@[j] == seed@[j],
            decreases 32 - i,
        {
            arr[i] = seed[i];
            i = i + 1;
        }
        assert(arr@ =~= seed@);
        let vk = ed25519_public_key_of(&arr);
        Ok(Ed25519Signer { seed: arr, verifying_key_bytes: vk, identity })
    }

    /// Signer with a fresh random seed, for tests.
    pub fn generate_for_test() -> (r: Self)
        ensures
            r.identity_view() == "ed25519:test-generated"@,
            r.seed_view().len() == ED25519_SEED_LEN,
            r.public_key_view() == ed25519_public_key(r.seed_view()),
    {
        let seed = os_random_seed();
        let vk = ed25519_public_key_of(&seed);
        Ed25519Signer {
            seed,
            verifying_key_bytes: vk,
            identity: String::from_str("ed25519:test-generated"),
        }
    }
}

impl Signer for Ed25519Signer {
    open spec fn signature_for(&self, message: Seq<u8>) -> Seq<u8> {
        ed25519_signature(self.seed_view(), message)
    }

    fn sign(&self, message: &[u8]) -> (r: Result<Vec<u8>, SignerError>)
        ensures
            r matches Ok(v) && v@.len() == ED25519_SIGNATURE_LEN,
    {
        Ok(ed25519_sign_with_seed(&self.seed, message))
    }

    fn public_key(&self) -> (r: Vec<u8>)
        ensures
            r@ == self.public_key_view(),
    {
        let mut v: Vec<u8> = Vec::new();
        let mut i: usize = 0;
        while i < 32
            invariant
                i <= 32,
                v@ == self.verifying_key_bytes@.subrange(0, i as int),
            decreases 32 - i,
        {
            v.push(self.verifying_key_bytes[i]);
            i = i + 1;
            assert(v@ =~= self.verifying_key_bytes@.subrange(0, i as int));
        }
        assert(self.verifying_key_bytes@.subrange(0, 32) =~= self.verifying_key_bytes@);
        v
    }

    fn identity(&self) -> (r: String)
        ensures
            r@ == self.identity_view(),
    {
        self.identity.clone()
    }
}

// ─── ClientOrderId ──────────────────────────────────────────────────────

/// Lower-case hexadecimal digit.
pub open spec fn is_lower_hex(c: char) -> bool {
    ('0' <= c && c <= '9') || ('a' <= c && c <= 'f')
}

/// Shape of a hyphenated lower-case version-4 UUID string:
/// `xxxxxxxx-xxxx-4xxx-Vxxx-xxxxxxxxxxxx` with `V` one of `8 9 a b`.
pub open spec fn is_uuid_v4_text(s: Seq<char>) -> bool {
    &&& s.len() == 36
    &&& s[8] == '-' && s[13] == '-' && s[18] == '-' && s[23] == '-'
    &&& s[14] == '4'
    &&& (s[19] == '8' || s[19] == '9' || s[19] == 'a' || s[19] == 'b')
    &&& forall|i: int|
        0 <= i < 36 && i != 8 && i != 13 && i != 18 && i != 23 ==> is_lower_hex(#[trigger] s[i])
}

/// `uuid::Uuid::new_v4().to_string()`: a random version-4 UUID in its
/// hyphenated lower-case form. Which UUID comes out is not stated.
#[verifier::external_body]
fn new_uuid_v4_text() -> (r: String)
    ensures
        is_uuid_v4_text(r@),
{
    uuid::Uuid::new_v4().to_string()
}

/// UUID v4 attached to every outgoing order, so that a venue can reject a
/// second submission and retries stay idempotent.
#[derive(Debug, Clone, PartialEq, Eq, Hash)]
pub struct ClientOrderId(String);

impl View for ClientOrderId {
    type V = Seq<char>;

    closed spec fn view(&self) -> Seq<char> {
        self.0@
    }
}

impl ClientOrderId {
    /// A fresh random identifier.
    pub fn new() -> (r: Self)
        ensures
            is_uuid_v4_text(r@),
    {
        ClientOrderId(new_uuid_v4_text())
    }

    /// The identifier's text.
    pub fn as_str(&self) -> (r: &str)
        ensures
            r@ == self@,
    {
        self.0.as_str()
    }
}

// ─── RetryPolicy ────────────────────────────────────────────────────────

/// Multiplier of the jitter generator (Knuth's MMIX LCG).
pub const LCG_MULTIPLIER: u64 = 6364136223846793005;

/// Increment of the jitter generator.
pub const LCG_INCREMENT: u64 = 1442695040888963407;

/// Exponential backoff with uniform jitter; all durations in milliseconds.
///
/// Delay for attempt `k` (0-based): `base * 2^k + jitter`, the product
/// saturating, the jitter in `[0, jitter_max]`, the whole capped at `max`.
#[derive(Debug, Clone, Copy, PartialEq, Eq, Structural)]
pub struct RetryPolicy {
    pub max_attempts: u32,
    pub base_delay_ms: u64,
    pub max_delay_ms: u64,
    pub jitter_max_ms: u64,
}

/// Next state of the jitter generator (wrapping arithmetic).
pub open spec fn lcg_next(s: u64) -> u64 {
    ((((s as nat * LCG_MULTIPLIER as nat) % 0x1_0000_0000_0000_0000) + LCG_INCREMENT as nat)
        % 0x1_0000_0000_0000_0000) as u64
}

/// Growth factor of attempt `k`: `2^k`, or `u64::MAX` from `k = 64` on.
pub open spec fn backoff_factor(attempt: u32) -> nat {
    if attempt < 64 {
        two_pow(attempt as nat)
    } else {
        u64::MAX as nat
    }
}

/// Backoff before jitter: `base * factor`, saturating, capped at `max`.
pub open spec fn spec_backoff_ms(base: u64, max: u64, attempt: u32) -> u64 {
    let e = base * backoff_factor(attempt);
    let sat = if e > u64::MAX {
        u64::MAX
    } else {
        e as u64
    };
    if sat <= max {
        sat
    } else {
        max
    }
}

/// Jitter drawn from generator state `state`: the top 53 bits of the state
/// as a fraction `u` in `[0, 1)`, times `jitter_max`, in binary64 and
/// truncated (saturating) to an integer.
pub open spec fn spec_jitter_ms(state: u64, jitter_max: u64) -> u64 {
    let x = state as nat / 2048;
    let j = round_to_binary64(jitter_max as nat);
    let v = round_to_binary64(x * j) / two_pow(53);
    if v > u64::MAX {
        u64::MAX
    } else {
        v as u64
    }
}

/// Delay the policy gives for `attempt` when the generator was at `state`:
/// the capped backoff plus the jitter, capped again at `max`.
pub open spec fn spec_delay_ms(p: RetryPolicy, attempt: u32, state: u64) -> int {
    let d = spec_backoff_ms(p.base_delay_ms, p.max_delay_ms, attempt) + spec_jitter_ms(
        lcg_next(state),
        p.jitter_max_ms,
    );
    if d <= p.max_delay_ms {
        d
    } else {
        p.max_delay_ms as int
    }
}

proof fn lemma_two_pow_monotone(i: nat, j: nat)
    requires
        i <= j,
    ensures
        1 <= two_pow(i) <= two_pow(j),
    decreases j,
{
    if j > i {
        lemma_two_pow_monotone(i, (j - 1) as nat);
    } else if i > 0 {
        lemma_two_pow_monotone(0, (i - 1) as nat);
    }
}

fn backoff_factor_exec(attempt: u32) -> (r: u64)
    ensures
        r as nat == backoff_factor(attempt),
{
    if attempt >= 64 {
        return u64::MAX;
    }
    let mut f: u64 = 1;
    let mut i: u32 = 0;
    proof {
        lemma_two_pow_53_63();
    }
    while i < attempt
        invariant
            i <= attempt < 64,
            f as nat == two_pow(i as nat),
            two_pow(63) == 0x8000_0000_0000_0000,
        decreases attempt - i,
    {
        proof {
            lemma_two_pow_monotone((i + 1) as nat, 63);
            assert(two_pow((i + 1) as nat) == 2 * two_pow(i as nat));
        }
        f = f * 2;
        i = i + 1;
    }
    f
}

/// The generator's draw from `state`, scaled to `[0, jitter_max]` in
/// binary64 and truncated (see [`spec_jitter_ms`]).
pub(crate) fn jitter_from_state(state: u64, jitter_max: u64) -> (r: u64)
    ensures
        r == spec_jitter_ms(state, jitter_max),
{
    let x: u128 = (state >> 11u32) as u128;
    proof {
        assert((state >> 11u32) == state / 2048) by (bit_vector);
        lemma_two_pow_53_63();
    }
    let j = round_u128_to_binary64(jitter_max as u128);
    proof {
        lemma_round_at_most_double(jitter_max as nat);
        assert(x * j <= 0x20_0000_0000_0000 * 0x2_0000_0000_0000_0000) by (nonlinear_arith)
            requires
                x < 0x20_0000_0000_0000,
                j <= 0x2_0000_0000_0000_0000,
        ;
    }
    let prod = round_u128_to_binary64(x * j);
    let v = prod / 0x20_0000_0000_0000u128;
    if v > 0xFFFF_FFFF_FFFF_FFFFu128 {
        u64::MAX
    } else {
        v as u64
    }
}

impl RetryPolicy {
    /// Production defaults: 4 attempts, 100 ms base, 2 s cap, 100 ms jitter.
    pub fn default_production() -> (r: Self)
        ensures
            r == (RetryPolicy {
                max_attempts: 4,
                base_delay_ms: 100,
                max_delay_ms: 2_000,
                jitter_max_ms: 100,
            }),
    {
        RetryPolicy { max_attempts: 4, base_delay_ms: 100, max_delay_ms: 2_000, jitter_max_ms: 100 }
    }

    /// Delay before retrying after attempt `attempt`; advances the jitter
    /// generator by one step.
    pub fn delay_for_attempt(&self, attempt: u32, rng_state: &mut u64) -> (r: u64)
        ensures
            *final(rng_state) == lcg_next(*old(rng_state)),
            r == spec_delay_ms(*self, attempt, *old(rng_state)),
    {
        let factor = backoff_factor_exec(attempt);
        let exp_ms = match self.base_delay_ms.checked_mul(factor) {
            Some(v) => v,
            None => u64::MAX,
        };
        let capped = if exp_ms <= self.max_delay_ms {
            exp_ms
        } else {
            self.max_delay_ms
        };
        let next = rng_state.wrapping_mul(LCG_MULTIPLIER).wrapping_add(LCG_INCREMENT);
        *rng_state = next;
        let jitter_ms = jitter_from_state(next, self.jitter_max_ms);
        let total = capped.saturating_add(jitter_ms);
        if total <= self.max_delay_ms {
            total
        } else {
            self.max_delay_ms
        }
    }
}

// ─── Retry loop ─────────────────────────────────────────────────────────

/// Outcome of one submission attempt.
#[derive(Debug, Clone, Copy, PartialEq, Eq, Structural)]
pub enum AttemptOutcome {
    /// The order is now fully filled.
    Filled,
    /// Some of the order filled; the remainder is still open.
    Partial,
    /// The venue call failed.
    Failed,
}

/// What the submission loop does after an attempt.
#[derive(Debug, Clone, Copy, PartialEq, Eq, Structural)]
pub enum RetryStep {
    /// Stop and return the tracker as it is.
    Return,
    /// Mark the tracker failed with the venue's error, then return.
    FailAndReturn,
    /// Mark the tracker failed as out of retries (the remainder never
    /// filled), then return.
    ExhaustAndReturn,
    /// Back off, then try again.
    Retry,
}

/// Decision after attempt `attempt` (0-based) of `max_attempts`.
pub open spec fn spec_retry_step(attempt: u32, max_attempts: u32, outcome: AttemptOutcome) -> RetryStep {
    match outcome {
        AttemptOutcome::Filled => RetryStep::Return,
        AttemptOutcome::Partial => if attempt + 1 == max_attempts {
            RetryStep::ExhaustAndReturn
        } else {
            RetryStep::Retry
        },
        AttemptOutcome::Failed => if attempt + 1 == max_attempts {
            RetryStep::FailAndReturn
        } else {
            RetryStep::Retry
        },
    }
}

/// What the idempotent submission loop does after an attempt: a fill ends
/// it; on the last attempt a partial fill marks the order failed as out of
/// retries and an error marks it failed with the error, so the order always
/// ends terminal; otherwise it backs off and retries.
pub fn retry_step(attempt: u32, max_attempts: u32, outcome: AttemptOutcome) -> (r: RetryStep)
    requires
        attempt < max_attempts,
    ensures
        r == spec_retry_step(attempt, max_attempts, outcome),
{
    let last = attempt + 1 == max_attempts;
    match outcome {
        AttemptOutcome::Filled => RetryStep::Return,
        AttemptOutcome::Partial => if last {
            RetryStep::ExhaustAndReturn
        } else {
            RetryStep::Retry
        },
        AttemptOutcome::Failed => if last {
            RetryStep::FailAndReturn
        } else {
            RetryStep::Retry
        },
    }
}

/// What the loop does after each attempt, by its inputs: it returns the
/// tracker untouched exactly when the order filled; it retries exactly when
/// the order did not fill and attempts remain; on the last attempt an error
/// marks the order failed with the error and a partial fill marks it failed
/// as out of retries.
pub proof fn lemma_retry_decisions(attempt: u32, max_attempts: u32, outcome: AttemptOutcome)
    requires
        attempt < max_attempts,
    ensures
        (spec_retry_step(attempt, max_attempts, outcome) == RetryStep::Return) <==> (outcome
            == AttemptOutcome::Filled),
        (spec_retry_step(attempt, max_attempts, outcome) == RetryStep::Retry) <==> (outcome
            != AttemptOutcome::Filled && attempt + 1 < max_attempts),
        (spec_retry_step(attempt, max_attempts, outcome) == RetryStep::FailAndReturn) <==> (outcome
            == AttemptOutcome::Failed && attempt + 1 == max_attempts),
        (spec_retry_step(attempt, max_attempts, outcome) == RetryStep::ExhaustAndReturn) <==> (
        outcome == AttemptOutcome::Partial && attempt + 1 == max_attempts),
{
}

/// The last attempt never retries, and returns the tracker untouched only
/// when the order filled: whatever the venue answers, the order ends in a
/// terminal state.
pub proof fn lemma_last_attempt_ends_terminal(attempt: u32, max_attempts: u32, outcome: AttemptOutcome)
    requires
        attempt + 1 == max_attempts,
    ensures
        spec_retry_step(attempt, max_attempts, outcome) != RetryStep::Retry,
        spec_retry_step(attempt, max_attempts, outcome) == RetryStep::Return ==> outcome
            == AttemptOutcome::Filled,
{
}

/// The backoff before jitter, by its inputs: the first attempt waits the
/// base delay (or the cap, if smaller); attempt `k` waits `base * 2^k`
/// while that stays within the cap, and exactly the cap once it exceeds it.
pub proof fn lemma_backoff_by_inputs(base: u64, max: u64, attempt: u32)
    ensures
        spec_backoff_ms(base, max, 0) == if base <= max {
            base
        } else {
            max
        },
        attempt < 64 && base * two_pow(attempt as nat) <= max ==> spec_backoff_ms(base, max, attempt)
            == base * two_pow(attempt as nat),
        attempt < 64 && base * two_pow(attempt as nat) > max ==> spec_backoff_ms(base, max, attempt)
            == max,
        attempt >= 64 && base > 0 ==> spec_backoff_ms(base, max, attempt) == max,
{
    assert(two_pow(0) == 1);
    assert(backoff_factor(0) == 1);
    assert(base * backoff_factor(0) == base);
    if attempt >= 64 && base > 0 {
        assert(base * (u64::MAX as nat) >= u64::MAX) by (nonlinear_arith)
            requires
                base >= 1,
        ;
    }
}

/// Without jitter, the delay grows with the attempt number until it
/// reaches the cap.
pub proof fn lemma_backoff_monotone(base: u64, max: u64, a: u32, b: u32)
    requires
        a <= b,
    ensures
        spec_backoff_ms(base, max, a) <= spec_backoff_ms(base, max, b),
{
    let fa = backoff_factor(a);
    let fb = backoff_factor(b);
    if b < 64 {
        lemma_two_pow_monotone(a as nat, b as nat);
    } else if a < 64 {
        lemma_two_pow_monotone(a as nat, 63);
        lemma_two_pow_53_63();
    }
    assert(fa <= fb);
    assert(base * fa <= base * fb) by (nonlinear_arith)
        requires
            fa <= fb,
    ;
}

/// Below the cap, each attempt doubles the backoff: strictly increasing for
/// a positive base.
pub proof fn lemma_backoff_doubles_below_cap(base: u64, max: u64, a: u32)
    requires
        a < 63,
        base > 0,
        base * two_pow((a + 1) as nat) <= max,
    ensures
        spec_backoff_ms(base, max, a) < spec_backoff_ms(base, max, (a + 1) as u32),
        spec_backoff_ms(base, max, (a + 1) as u32) == 2 * spec_backoff_ms(base, max, a),
{
    lemma_two_pow_monotone(a as nat, (a + 1) as nat);
    assert(two_pow((a + 1) as nat) == 2 * two_pow(a as nat));
    assert(base * two_pow((a + 1) as nat) == 2 * (base * two_pow(a as nat))) by (nonlinear_arith)
        requires
            two_pow((a + 1) as nat) == 2 * two_pow(a as nat),
    ;
    assert(base * two_pow(a as nat) >= 1) by (nonlinear_arith)
        requires
            base > 0,
            two_pow(a as nat) >= 1,
    ;
}

/// The delay never exceeds the cap, jitter included, and never falls below
/// the backoff, which itself never exceeds the cap.
pub proof fn lemma_delay_capped(p: RetryPolicy, attempt: u32, state: u64)
    ensures
        spec_backoff_ms(p.base_delay_ms, p.max_delay_ms, attempt) <= p.max_delay_ms,
        spec_backoff_ms(p.base_delay_ms, p.max_delay_ms, attempt) <= spec_delay_ms(p, attempt, state),
        spec_delay_ms(p, attempt, state) <= p.max_delay_ms,
{
}

/// The jitter never exceeds its maximum when that maximum is below 2^53
/// (every such integer is exact in binary64).
pub proof fn lemma_jitter_bounded(state: u64, jitter_max: u64)
    requires
        jitter_max < 0x20_0000_0000_0000,
    ensures
        spec_jitter_ms(state, jitter_max) <= jitter_max,
{
    crate::binary64::lemma_two_pow_53_63();
    crate::binary64::lemma_round_exact_below_limit(jitter_max as nat);
    let x = state as nat / 2048;
    assert(x < 0x20_0000_0000_0000);
    if jitter_max > 0 {
        assert(x * jitter_max < two_pow(53) * jitter_max) by (nonlinear_arith)
            requires
                x < two_pow(53),
                jitter_max > 0,
        ;
        crate::binary64::lemma_round_below_scaled(x * (jitter_max as nat), jitter_max as nat);
        let r = round_to_binary64(x * (jitter_max as nat));
        assert(r / two_pow(53) <= jitter_max) by (nonlinear_arith)
            requires
                r <= two_pow(53) * jitter_max,
                two_pow(53) > 0,
        ;
    } else {
        assert(x * jitter_max == 0) by (nonlinear_arith)
            requires
                jitter_max == 0,
        ;
        assert(crate::binary64::excess_bits(0) == 0);
    }
}

/// With a jitter maximum below 2^53, a delay lies between the backoff and
/// the backoff plus the jitter maximum.
pub proof fn lemma_delay_within_jitter(p: RetryPolicy, attempt: u32, state: u64)
    requires
        p.jitter_max_ms < 0x20_0000_0000_0000,
    ensures
        spec_backoff_ms(p.base_delay_ms, p.max_delay_ms, attempt) <= spec_delay_ms(p, attempt, state)
            <= spec_backoff_ms(p.base_delay_ms, p.max_delay_ms, attempt) + p.jitter_max_ms,
        spec_delay_ms(p, attempt, state) <= p.max_delay_ms,
{
    lemma_jitter_bounded(lcg_next(state), p.jitter_max_ms);
}

} // verus!
