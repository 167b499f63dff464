use chrono::{DateTime, Duration, TimeZone, Utc};
use funding_bot::rate_limit::{
    parse_retry_after, parse_u64_text, trim, wait_for_delta, DEFAULT_BACKOFF_SECS,
    MAX_BACKOFF_SECS,
};

fn fixed_now() -> DateTime<Utc> {
    Utc.with_ymd_and_hms(2025, 1, 1, 12, 0, 0).unwrap()
}

fn parse(h: Option<&str>, now: DateTime<Utc>) -> u64 {
    parse_retry_after(h, now.timestamp(), now.timestamp_subsec_nanos())
}

#[test]
fn integer_seconds_parsed() {
    assert_eq!(parse(Some("30"), fixed_now()), 30);
    assert_eq!(parse(Some("  5  "), fixed_now()), 5);
    assert_eq!(parse(Some("0"), fixed_now()), 0);
}

#[test]
fn missing_header_uses_default() {
    assert_eq!(parse(None, fixed_now()), DEFAULT_BACKOFF_SECS);
}

#[test]
fn empty_header_uses_default() {
    assert_eq!(parse(Some(""), fixed_now()), DEFAULT_BACKOFF_SECS);
    assert_eq!(parse(Some("   "), fixed_now()), DEFAULT_BACKOFF_SECS);
}

#[test]
fn unparseable_header_uses_default() {
    assert_eq!(parse(Some("not a number"), fixed_now()), DEFAULT_BACKOFF_SECS);
}

#[test]
fn integer_capped_at_max() {
    assert_eq!(parse(Some("999"), fixed_now()), MAX_BACKOFF_SECS);
}

#[test]
fn http_date_in_future_computes_delta() {
    let now = fixed_now();
    let when = now + Duration::seconds(10);
    let rfc2822 = when.to_rfc2822();
    assert_eq!(parse(Some(&rfc2822), now), 10);
}

#[test]
fn http_date_in_past_is_zero() {
    let now = fixed_now();
    let past = now - Duration::seconds(5);
    let rfc2822 = past.to_rfc2822();
    assert_eq!(parse(Some(&rfc2822), now), 0);
}

#[test]
fn http_date_far_future_capped() {
    let now = fixed_now();
    let far = now + Duration::seconds(3600);
    let rfc2822 = far.to_rfc2822();
    assert_eq!(parse(Some(&rfc2822), now), MAX_BACKOFF_SECS);
}

#[test]
fn u64_parse_follows_std() {
    for t in ["0", "+7", "+", "-1", "12a", "18446744073709551615", "18446744073709551616", "007", "", "٣"] {
        assert_eq!(parse_u64_text(t), t.parse::<u64>().ok(), "input {t:?}");
    }
}

#[test]
fn trim_follows_std() {
    for t in ["  a b  ", "\u{3000}x\u{2009}", "\t\n", "", "x", "\u{85}y\u{a0}", "\u{200b}z"] {
        assert_eq!(trim(t), t.trim(), "input {t:?}");
    }
}

#[test]
fn whitespace_around_date_is_trimmed() {
    let now = fixed_now();
    let when = (now + Duration::seconds(42)).to_rfc2822();
    let padded = format!("  {when}\t");
    assert_eq!(parse(Some(&padded), now), 42);
}

#[test]
fn wait_for_delta_clamps() {
    assert_eq!(wait_for_delta(-5), 0);
    assert_eq!(wait_for_delta(0), 0);
    assert_eq!(wait_for_delta(1), 1);
    assert_eq!(wait_for_delta(60), 60);
    assert_eq!(wait_for_delta(61), 60);
    assert_eq!(wait_for_delta(i64::MAX), 60);
}

#[test]
fn fractional_now_truncates_toward_zero() {
    let now = fixed_now() + Duration::milliseconds(500);
    let when = (fixed_now() + Duration::seconds(10)).to_rfc2822();
    assert_eq!(parse(Some(&when), now), 9);
}
