use delray::cli::{parse_u64, positive_u64, DEFAULT_PROC_REFRESH, DEFAULT_TOP_N};

#[test]
fn proc_refresh_zero_rejected() {
    assert!(positive_u64("0").is_err());
}

#[test]
fn proc_refresh_non_numeric_rejected() {
    assert!(positive_u64("abc").is_err());
}

#[test]
fn proc_refresh_negative_rejected() {
    assert!(positive_u64("-5").is_err());
}

#[test]
fn positive_values_are_accepted() {
    assert_eq!(positive_u64("5"), Ok(5));
    assert_eq!(positive_u64("+7"), Ok(7));
    assert_eq!(positive_u64("18446744073709551615"), Ok(u64::MAX));
}

#[test]
fn refusals_say_why() {
    assert_eq!(positive_u64("0"), Err("value must be greater than 0".to_string()));
    assert_eq!(positive_u64("abc"), Err("value must be a positive integer".to_string()));
    assert_eq!(positive_u64(""), Err("value must be a positive integer".to_string()));
    assert_eq!(positive_u64("+"), Err("value must be a positive integer".to_string()));
    assert_eq!(
        positive_u64("18446744073709551616"),
        Err("value must be a positive integer".to_string())
    );
}

#[test]
fn decimal_reading_matches_std() {
    for s in ["0", "007", "+12", "-1", "1_000", " 1", "99999999999999999999", "42"] {
        assert_eq!(parse_u64(s), s.parse::<u64>().ok(), "input {s:?}");
    }
}

#[test]
fn defaults_match_the_documented_values() {
    assert_eq!(DEFAULT_PROC_REFRESH, 2);
    assert_eq!(DEFAULT_TOP_N, 10);
}
