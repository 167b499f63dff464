use ed25519_dalek::Verifier;
use zeroize::Zeroize;
use funding_bot::execution::{
    retry_step, AttemptOutcome, ClientOrderId, Ed25519Signer, NoopSigner, RetryPolicy, RetryStep,
    Signer, SignerError,
};

fn policy(max_attempts: u32, base: u64, max: u64, jitter: u64) -> RetryPolicy {
    RetryPolicy { max_attempts, base_delay_ms: base, max_delay_ms: max, jitter_max_ms: jitter }
}

/// The delay as binary64 arithmetic computes it.
fn float_delay(p: &RetryPolicy, attempt: u32, state: &mut u64) -> u64 {
    let exp = p.base_delay_ms.saturating_mul(1u64.checked_shl(attempt).unwrap_or(u64::MAX));
    let capped = exp.min(p.max_delay_ms);
    *state = state.wrapping_mul(6364136223846793005).wrapping_add(1442695040888963407);
    let u = (*state >> 11) as f64 / (1u64 << 53) as f64;
    let jitter = (u * p.jitter_max_ms as f64) as u64;
    capped.saturating_add(jitter).min(p.max_delay_ms)
}

#[test]
fn ed25519_signer_round_trip() {
    let signer = Ed25519Signer::generate_for_test();
    let msg = b"test message";
    let sig = signer.sign(msg).unwrap();
    assert_eq!(sig.len(), 64);
    let pk_bytes: [u8; 32] = signer.public_key().try_into().unwrap();
    let vk = ed25519_dalek::VerifyingKey::from_bytes(&pk_bytes).unwrap();
    let sig_bytes: [u8; 64] = sig.try_into().unwrap();
    let sig_obj = ed25519_dalek::Signature::from_bytes(&sig_bytes);
    assert!(vk.verify(msg, &sig_obj).is_ok());
}

#[test]
fn ed25519_signer_rejects_wrong_seed_length() {
    let result = Ed25519Signer::from_seed(&[0u8; 10], "x".to_string());
    assert!(result.is_err());
}

#[test]
fn client_order_id_is_unique() {
    let a = ClientOrderId::new();
    let b = ClientOrderId::new();
    assert_ne!(a, b);
}

#[test]
fn zeroize_wrapper_is_in_use() {
    let mut arr = zeroize::Zeroizing::new([9u8; 32]);
    assert_eq!(*arr, [9u8; 32]);
    (*arr).zeroize();
    assert_eq!(*arr, [0u8; 32]);
}

#[test]
fn retry_delay_monotonic_before_cap() {
    let r = policy(5, 100, 10_000, 0);
    let mut s = 7u64;
    let d0 = r.delay_for_attempt(0, &mut s);
    let d1 = r.delay_for_attempt(1, &mut s);
    let d2 = r.delay_for_attempt(2, &mut s);
    assert!(d0 < d1);
    assert!(d1 < d2);
}

#[test]
fn retry_delay_capped_at_max() {
    let r = policy(20, 100, 500, 0);
    let mut s = 0u64;
    let d_big = r.delay_for_attempt(30, &mut s);
    assert!(d_big <= 500);
}

#[test]
fn seed_error_names_the_length() {
    match Ed25519Signer::from_seed(&[1u8; 31], "x".to_string()) {
        Err(SignerError::InvalidKey(m)) => assert_eq!(m, "Ed25519 seed must be 32 bytes, got 31"),
        _ => panic!("expected InvalidKey"),
    }
    let ok = Ed25519Signer::from_seed(&[7u8; 32], "ed25519:me".to_string()).unwrap();
    assert_eq!(ok.identity(), "ed25519:me");
    assert_eq!(ok.public_key().len(), 32);
}

#[test]
fn seeded_signer_is_deterministic() {
    let a = Ed25519Signer::from_seed(&[3u8; 32], "a".to_string()).unwrap();
    let b = Ed25519Signer::from_seed(&[3u8; 32], "b".to_string()).unwrap();
    assert_eq!(a.public_key(), b.public_key());
    assert_eq!(a.sign(b"m").unwrap(), b.sign(b"m").unwrap());
}

#[test]
fn seeded_signer_matches_dalek() {
    let seed = [11u8; 32];
    let ours = Ed25519Signer::from_seed(&seed, "s".to_string()).unwrap();
    let key = ed25519_dalek::SigningKey::from_bytes(&seed);
    assert_eq!(ours.public_key(), key.verifying_key().to_bytes().to_vec());
    assert_ne!(ours.public_key(), seed.to_vec());
    let msg = b"order payload";
    assert_eq!(ours.sign(msg).unwrap(), ed25519_dalek::Signer::sign(&key, msg).to_bytes().to_vec());
    assert_ne!(ours.sign(msg).unwrap(), ours.sign(b"").unwrap());
}

#[test]
fn signer_works_as_trait_object() {
    let signers: Vec<Box<dyn Signer>> =
        vec![Box::new(NoopSigner), Box::new(Ed25519Signer::generate_for_test())];
    let sigs: Vec<usize> = signers.iter().map(|s| s.sign(b"x").unwrap().len()).collect();
    assert_eq!(sigs, vec![0, 64]);
    let ids: Vec<String> = signers.iter().map(|s| s.identity()).collect();
    assert_eq!(ids, vec!["noop".to_string(), "ed25519:test-generated".to_string()]);
    let shared: std::sync::Arc<dyn Signer + Send + Sync> = std::sync::Arc::new(NoopSigner);
    assert!(shared.public_key().is_empty());
}

#[test]
fn noop_signer_signs_nothing() {
    let n = NoopSigner;
    assert!(n.sign(b"abc").unwrap().is_empty());
    assert!(n.public_key().is_empty());
    assert_eq!(n.identity(), "noop");
}

#[test]
fn client_order_id_is_hyphenated_v4() {
    let id = ClientOrderId::new();
    let s = id.as_str();
    assert_eq!(s.len(), 36);
    assert_eq!(&s[14..15], "4");
    assert!(uuid::Uuid::parse_str(s).is_ok());
}

#[test]
fn default_production_values() {
    let p = RetryPolicy::default_production();
    assert_eq!(p, policy(4, 100, 2_000, 100));
}

#[test]
fn backoff_doubles_then_caps_exactly() {
    let r = policy(10, 100, 1_000, 0);
    let mut s = 1u64;
    let got: Vec<u64> = (0..6).map(|k| r.delay_for_attempt(k, &mut s)).collect();
    assert_eq!(got, vec![100, 200, 400, 800, 1_000, 1_000]);
    assert_eq!(r.delay_for_attempt(64, &mut s), 1_000);
    assert_eq!(r.delay_for_attempt(u32::MAX, &mut s), 1_000);
}

#[test]
fn jitter_matches_binary64_arithmetic() {
    for &jitter in &[0u64, 1, 3, 100, 997, 1_000_003, (1u64 << 53) - 1, (1u64 << 53) + 1, u64::MAX / 3] {
        let p = policy(4, 100, 2_000, jitter);
        let mut s_lib = 12345u64;
        let mut s_ref = 12345u64;
        for attempt in 0..200u32 {
            let a = p.delay_for_attempt(attempt % 8, &mut s_lib);
            let b = float_delay(&p, attempt % 8, &mut s_ref);
            assert_eq!(a, b, "jitter_max {jitter} attempt {attempt}");
            assert_eq!(s_lib, s_ref);
        }
    }
}

#[test]
fn jitter_never_pushes_delay_past_cap() {
    // at the cap, any positive jitter would exceed it; the cap holds
    let p = policy(10, 100, 1_000, 500);
    let mut s = 99u64;
    for attempt in 4..20u32 {
        assert_eq!(p.delay_for_attempt(attempt, &mut s), 1_000);
    }
    // below the cap the jitter still adds, up to the cap
    let p = policy(10, 100, 2_000, 100);
    let mut s = 5u64;
    for attempt in 0..4u32 {
        let base = 100u64 << attempt;
        let d = p.delay_for_attempt(attempt, &mut s);
        assert!(base <= d && d <= (base + 100).min(2_000), "attempt {attempt}: {d}");
    }
    // huge jitter maximum and cap: no overflow, capped
    let p = policy(4, u64::MAX, u64::MAX, u64::MAX);
    let mut s = 1u64;
    assert_eq!(p.delay_for_attempt(3, &mut s), u64::MAX);
}

#[test]
fn generator_advances_by_one_lcg_step() {
    let p = policy(4, 1, 1, 0);
    let mut s = 0u64;
    p.delay_for_attempt(0, &mut s);
    assert_eq!(s, 1442695040888963407);
}

#[test]
fn retry_step_decisions() {
    assert_eq!(retry_step(0, 3, AttemptOutcome::Filled), RetryStep::Return);
    assert_eq!(retry_step(0, 3, AttemptOutcome::Partial), RetryStep::Retry);
    assert_eq!(retry_step(2, 3, AttemptOutcome::Partial), RetryStep::ExhaustAndReturn);
    assert_eq!(retry_step(0, 1, AttemptOutcome::Partial), RetryStep::ExhaustAndReturn);
    assert_eq!(retry_step(0, 1, AttemptOutcome::Filled), RetryStep::Return);
    assert_eq!(retry_step(1, 3, AttemptOutcome::Failed), RetryStep::Retry);
    assert_eq!(retry_step(2, 3, AttemptOutcome::Failed), RetryStep::FailAndReturn);
}

#[test]
fn signer_error_texts() {
    assert_eq!(SignerError::MissingKey.describe(), "missing key material");
    assert_eq!(SignerError::SigningFailed("x".to_string()).describe(), "signing failed: x");
    assert_eq!(SignerError::InvalidKey("y".to_string()).describe(), "invalid key: y");
}
