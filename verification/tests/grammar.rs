//! The size-limit grammar and the percentage arithmetic.

use elfsize::{percent, parse_limit};

#[test]
fn parse_binary_suffixes() {
    assert_eq!(parse_limit("1KiB"), Ok(1024));
    assert_eq!(parse_limit("1k"), Ok(1024));
    assert_eq!(parse_limit("1MiB"), Ok(1024 * 1024));
    assert_eq!(parse_limit("1m"), Ok(1024 * 1024));
    assert_eq!(parse_limit("1GiB"), Ok(1024 * 1024 * 1024));
    assert_eq!(parse_limit("1g"), Ok(1024 * 1024 * 1024));
    assert_eq!(parse_limit("1TiB"), Ok(1024u64 * 1024 * 1024 * 1024));
    assert_eq!(parse_limit("1t"), Ok(1024u64 * 1024 * 1024 * 1024));
}

#[test]
fn parse_decimal_suffixes() {
    assert_eq!(parse_limit("1KB"), Ok(1000));
    assert_eq!(parse_limit("1MB"), Ok(1_000_000));
    assert_eq!(parse_limit("1GB"), Ok(1_000_000_000));
    assert_eq!(parse_limit("1TB"), Ok(1_000_000_000_000));
    assert_eq!(parse_limit("7b"), Ok(7));
}

#[test]
fn parse_no_suffix_is_bytes() {
    assert_eq!(parse_limit("512"), Ok(512));
    assert_eq!(parse_limit("0"), Ok(0));
    assert_eq!(parse_limit(" 512 "), Ok(512));
}

#[test]
fn parse_is_case_insensitive() {
    assert_eq!(parse_limit("2kib"), Ok(2048));
    assert_eq!(parse_limit("2KIB"), Ok(2048));
    assert_eq!(parse_limit("2Kb"), Ok(2000));
    assert_eq!(parse_limit("3T"), Ok(3 * 1024u64 * 1024 * 1024 * 1024));
}

#[test]
fn parse_allows_space_before_unit() {
    assert_eq!(parse_limit("1 KiB"), Ok(1024));
    assert_eq!(parse_limit("  64 kb"), Ok(64_000));
}

#[test]
fn parse_rejects_bad_input() {
    assert!(parse_limit("").is_err());
    assert!(parse_limit("abc").is_err());
    assert!(parse_limit("12x").is_err());
    assert!(parse_limit("kb").is_err());
    assert!(parse_limit("1.5k").is_err());
    assert!(parse_limit("-1").is_err());
    assert!(parse_limit("+5k").is_err());
    assert!(parse_limit("1kb ").is_err());
    assert!(parse_limit("1 000").is_err());
}

#[test]
fn parse_rejects_values_beyond_a_byte_count() {
    assert!(parse_limit("99999999999999999999999").is_err());
    assert!(parse_limit("18446744073709551615").is_ok());
    assert!(parse_limit("18446744073709551616").is_err());
    assert!(parse_limit("18014398509481984 kib").is_err());
}

#[test]
fn parse_error_carries_the_grammar_hint() {
    let hint = "limit must be a number followed by an optional SI unit (GiB, KB, etc)";
    assert_eq!(parse_limit("abc"), Err(hint.to_string()));
    assert_eq!(parse_limit(""), Err(hint.to_string()));
    assert_eq!(parse_limit("99999999999999999999999"), Err(hint.to_string()));
}

#[test]
fn parse_results_are_case_insensitive() {
    assert_eq!(parse_limit("1KiB"), parse_limit("1kib"));
    assert_eq!(parse_limit("1KiB"), parse_limit("1KIB"));
    assert_eq!(parse_limit("512"), parse_limit("512"));
    assert_eq!(parse_limit("ABC"), parse_limit("abc"));
}

#[test]
fn percent_truncates_toward_zero() {
    assert_eq!(percent(150, 100), 150);
    assert_eq!(percent(100, 100), 100);
    assert_eq!(percent(1, 3), 33);
    assert_eq!(percent(2, 3), 66);
    assert_eq!(percent(0, 7), 0);
}

#[test]
fn percent_with_zero_budget_saturates() {
    assert_eq!(percent(0, 0), 0);
    assert_eq!(percent(5, 0), u64::MAX);
}
