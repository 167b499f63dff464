use funding_bot::tracing_redact::{is_sensitive_field, redact_value, redacted_field_names};

#[test]
fn sensitive_names_match_case_insensitively() {
    assert!(is_sensitive_field("api_key"));
    assert!(is_sensitive_field("API_KEY"));
    assert!(is_sensitive_field("Signature"));
    assert!(is_sensitive_field("PRIVATE_KEY"));
    assert!(is_sensitive_field("seed"));
    assert!(is_sensitive_field("Mnemonic"));
}

#[test]
fn benign_names_not_redacted() {
    assert!(!is_sensitive_field("symbol"));
    assert!(!is_sensitive_field("nav_usd"));
    assert!(!is_sensitive_field("venue"));
    assert!(!is_sensitive_field("cycle_index"));
}

#[test]
fn redact_value_preserves_byte_length() {
    assert_eq!(redact_value("abc"), "<redacted:3>");
    assert_eq!(redact_value(""), "<redacted:0>");
    assert_eq!(redact_value("x".repeat(100).as_str()), "<redacted:100>");
}

#[test]
fn redaction_counts_bytes_not_characters() {
    assert_eq!(redact_value("é"), "<redacted:2>");
    assert_eq!(redact_value("1234567890"), "<redacted:10>");
}

#[test]
fn every_reserved_name_is_sensitive() {
    let names = redacted_field_names();
    assert_eq!(names.len(), 17);
    for n in names {
        assert!(is_sensitive_field(n));
        assert!(is_sensitive_field(&n.to_uppercase()));
    }
    assert!(is_sensitive_field("BeArEr"));
    assert!(!is_sensitive_field("api_keys"));
    assert!(!is_sensitive_field("ıd"));
    assert!(!is_sensitive_field("ApI\u{212a}ey"));
}
