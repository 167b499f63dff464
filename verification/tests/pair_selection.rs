use funding_bot::binary64::{le, lt, NEGATIVE_INFINITY};
use funding_bot::decision::{first_is_long, select_best_pair, PairCandidate};

fn b(x: f64) -> u64 {
    x.to_bits()
}

fn cand(long_idx: usize, short_idx: usize, has_depth: bool, net: f64) -> PairCandidate {
    PairCandidate { long_idx, short_idx, has_depth, net_annual: b(net) }
}

#[test]
fn binary64_comparisons_match_f64() {
    let xs = [f64::NEG_INFINITY, -3.5, -1e-300, -0.0, 0.0, 1e-300, 2.0, 2.5, f64::INFINITY, f64::NAN];
    for x in xs {
        for y in xs {
            assert_eq!(lt(b(x), b(y)), x < y, "{x} < {y}");
            assert_eq!(le(b(x), b(y)), x <= y, "{x} <= {y}");
        }
    }
    assert_eq!(NEGATIVE_INFINITY, b(f64::NEG_INFINITY));
}

#[test]
fn lower_rate_is_long() {
    assert!(first_is_long(b(0.01), b(0.05)));
    assert!(first_is_long(b(0.05), b(0.05)));
    assert!(!first_is_long(b(0.06), b(0.05)));
    assert!(!first_is_long(b(f64::NAN), b(0.05)));
}

#[test]
fn best_pair_is_first_largest_net_above_threshold() {
    let cands = [
        cand(0, 1, true, 0.03),
        cand(0, 2, true, 0.07),
        cand(1, 2, true, 0.07),
        cand(2, 3, false, 0.50),
        cand(1, 3, true, 0.01),
    ];
    assert_eq!(select_best_pair(&cands, b(0.02)), Some(1));
    assert_eq!(select_best_pair(&cands, b(0.08)), None);
    assert_eq!(select_best_pair(&[], b(0.0)), None);
}

#[test]
fn nan_or_depthless_candidates_never_win() {
    let cands = [cand(0, 1, true, f64::NAN), cand(1, 0, false, 1.0)];
    assert_eq!(select_best_pair(&cands, b(0.0)), None);
    let cands = [cand(0, 1, true, f64::NAN), cand(0, 2, true, 0.001)];
    assert_eq!(select_best_pair(&cands, b(f64::NAN)), Some(1));
}
