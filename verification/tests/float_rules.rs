use funding_bot::adapters::{mid_source, MidSource};
use funding_bot::fair_value::{contributing_venues, fair_value_healthy};
use funding_bot::metrics::bucket_index;

fn b(x: f64) -> u64 {
    x.to_bits()
}

#[test]
fn mid_source_prefers_both_sides() {
    assert_eq!(mid_source(b(100.0), b(101.0)), MidSource::Both);
    assert_eq!(mid_source(b(100.0), b(0.0)), MidSource::BidOnly);
    assert_eq!(mid_source(b(-1.0), b(101.0)), MidSource::AskOnly);
    assert_eq!(mid_source(b(0.0), b(-0.0)), MidSource::Neither);
    assert_eq!(mid_source(b(f64::NAN), b(f64::NAN)), MidSource::Neither);
}

#[test]
fn fair_value_contributors_skip_nonpositive_depth() {
    let depths = [b(1_000.0), b(0.0), b(-5.0), b(f64::NAN), b(2.0)];
    assert_eq!(contributing_venues(&depths), vec![0, 3, 4]);
    assert!(contributing_venues(&[]).is_empty());
    assert!(fair_value_healthy(2));
    assert!(!fair_value_healthy(1));
}

#[test]
fn histogram_bucket_is_first_bound_not_exceeded() {
    let bounds: Vec<u64> = [0.001, 0.01, 0.1, 1.0].iter().map(|x| b(*x)).collect();
    assert_eq!(bucket_index(b(0.0005), &bounds), 0);
    assert_eq!(bucket_index(b(0.001), &bounds), 0);
    assert_eq!(bucket_index(b(0.002), &bounds), 1);
    assert_eq!(bucket_index(b(1.0), &bounds), 3);
    assert_eq!(bucket_index(b(2.5), &bounds), 4);
    assert_eq!(bucket_index(b(f64::NAN), &bounds), 4);
    assert_eq!(bucket_index(b(-1.0), &bounds), 0);
}
