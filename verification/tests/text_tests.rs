use capsuled::clock::{
    decimal_string, floor_seconds, is_quotable_instant, payment_expiry_at, payment_expiry_checked, payment_expiry_rfc3339,
};
use capsuled::paths::{extension_of, file_name_of, file_stem_of, join_path};
use capsuled::text::{first_word_of, hex_char, hex_lower, is_whitespace, str_eq};

#[test]
fn hex_is_lowercase_two_digits_per_byte() {
    assert_eq!(hex_lower(&[0x00, 0x0f, 0xa0, 0xff]), "000fa0ff");
    assert_eq!(hex_lower(&[]), "");
    assert_eq!(hex_char(11), 'b');
}

#[test]
fn whitespace_follows_unicode() {
    assert!(is_whitespace(' '));
    assert!(is_whitespace('\n'));
    assert!(is_whitespace('\u{3000}'));
    assert!(!is_whitespace('a'));
    assert!(!is_whitespace('\u{200b}'));
}

#[test]
fn first_word_splits_on_whitespace() {
    assert_eq!(first_word_of("  alpha beta"), Some("alpha".to_string()));
    assert_eq!(first_word_of("one"), Some("one".to_string()));
    assert_eq!(first_word_of(" \t "), None);
    assert_eq!(first_word_of(""), None);
}

#[test]
fn string_helpers() {
    assert!(str_eq("x", "x"));
    assert!(!str_eq("x", "y"));
}

#[test]
fn path_components_match_std() {
    for p in [
        "/v/.capsule/manifests/cap_a.json",
        "cap_a.json.tmp",
        "/v/.capsule/manifests/._cap_a.json",
        "/v/dir/",
        "/v/dir/.",
        "/",
        "",
        "..",
        "/v/.hidden",
        "a.b.c",
        "noext",
        "trail.",
    ] {
        let sp = std::path::Path::new(p);
        assert_eq!(file_name_of(p).as_deref(), sp.file_name().and_then(|s| s.to_str()), "file_name {p}");
        assert_eq!(file_stem_of(p).as_deref(), sp.file_stem().and_then(|s| s.to_str()), "file_stem {p}");
        assert_eq!(extension_of(p).as_deref(), sp.extension().and_then(|s| s.to_str()), "extension {p}");
    }
}

#[test]
fn join_matches_std() {
    assert_eq!(join_path("/v", ".capsule"), "/v/.capsule");
    assert_eq!(join_path("/v/", ".capsule"), "/v/.capsule");
    assert_eq!(join_path("/v", "/abs"), "/abs");
    assert_eq!(join_path("", "x"), "x");
}

#[test]
fn decimal_text() {
    assert_eq!(decimal_string(0), "0");
    assert_eq!(decimal_string(1_700_000_300), "1700000300");
    assert_eq!(decimal_string(-42), "-42");
    assert_eq!(decimal_string(i64::MIN), "-9223372036854775808");
}

#[test]
fn seconds_round_down() {
    assert_eq!(floor_seconds(1_999_999_999), 1);
    assert_eq!(floor_seconds(-1), -1);
    assert_eq!(floor_seconds(-1_000_000_000), -1);
    assert_eq!(floor_seconds(-1_000_000_001), -2);
}

#[test]
fn expiry_is_five_minutes_later() {
    assert_eq!(payment_expiry_at(0), "1970-01-01T00:05:00Z");
    assert_eq!(payment_expiry_at(86_400 * 1_000_000_000), "1970-01-02T00:05:00Z");
    assert_eq!(payment_expiry_at(1_200_000_000), "1970-01-01T00:05:01.2Z");
    assert_eq!(payment_expiry_at(-400_500_000_000), "1969-12-31T23:58:19.5Z");
}

#[test]
fn expiry_before_year_zero_falls_back_to_unix_seconds() {
    let now: i128 = -62_167_219_200 * 1_000_000_000 - 400 * 1_000_000_000;
    assert_eq!(payment_expiry_at(now), "-62167219600");
}

#[test]
fn expiry_from_the_system_clock() {
    let s = payment_expiry_rfc3339().expect("the clock is in range");
    assert!(s.ends_with('Z'));
    assert_eq!(s.as_bytes()[4], b'-');
    assert!(s.as_str() > "2020");
}

#[test]
fn expiry_checked_refuses_unquotable_instants() {
    let late: i128 = 253_402_300_799 * 1_000_000_000;
    assert_eq!(payment_expiry_checked(late), None);
    assert!(!is_quotable_instant(late));
    assert!(!is_quotable_instant(i128::MAX));
    assert!(!is_quotable_instant(i128::MIN));
    assert_eq!(payment_expiry_checked(0).as_deref(), Some("1970-01-01T00:05:00Z"));
    assert!(is_quotable_instant(late - 300 * 1_000_000_000));
}
