use funding_bot::signal::{signal_file_name, signal_temp_file_name};

#[test]
fn signal_file_name_pads_millis_to_three_digits() {
    assert_eq!(signal_file_name(1_700_000_000, 7), "1700000000007.json");
    assert_eq!(signal_file_name(1_700_000_000, 42), "1700000000042.json");
    assert_eq!(signal_file_name(1_700_000_000, 999), "1700000000999.json");
    assert_eq!(signal_file_name(0, 0), "0000.json");
}

#[test]
fn signal_file_name_matches_format_for_any_instant() {
    for (secs, millis) in [(-1i64, 42u32), (i64::MIN, 5), (i64::MAX, 100), (12, 1500)] {
        assert_eq!(signal_file_name(secs, millis), format!("{}{:03}.json", secs, millis));
        assert_eq!(signal_temp_file_name(secs, millis), format!("{}{:03}.tmp", secs, millis));
    }
}

#[test]
fn temp_name_is_final_name_with_tmp_suffix() {
    let f = signal_file_name(1_700_000_123, 456);
    let t = signal_temp_file_name(1_700_000_123, 456);
    assert_eq!(format!("{}.tmp", &f[..f.len() - 5]), t);
}
