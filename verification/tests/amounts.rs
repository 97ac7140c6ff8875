use librgb::text::{atomic_amount, format_amount, is_all_digits, parse_amount};

#[test]
fn amount_text_round_trip() {
    assert_eq!(format_amount(0), "0");
    assert_eq!(format_amount(250), "250");
    assert_eq!(format_amount(u64::MAX), "18446744073709551615");
    assert_eq!(parse_amount("250"), Some(250));
    assert_eq!(parse_amount("+7"), Some(7));
    assert_eq!(parse_amount("007"), Some(7));
    assert_eq!(parse_amount("18446744073709551615"), Some(u64::MAX));
}

#[test]
fn amount_text_rejects() {
    assert_eq!(parse_amount(""), None);
    assert_eq!(parse_amount("+"), None);
    assert_eq!(parse_amount("-1"), None);
    assert_eq!(parse_amount("12a"), None);
    assert_eq!(parse_amount("1.5"), None);
    assert_eq!(parse_amount("18446744073709551616"), None);
}

#[test]
fn decimal_amount_is_read_into_atomic_units() {
    assert_eq!(atomic_amount("12.5", 2), Some(1250));
    assert_eq!(atomic_amount("12.50", 2), Some(1250));
    assert_eq!(atomic_amount("12", 2), Some(1200));
    assert_eq!(atomic_amount("0.00000001", 8), Some(1));
    assert_eq!(atomic_amount("007.1", 1), Some(71));
    assert_eq!(atomic_amount("7", 0), Some(7));
    assert_eq!(atomic_amount("0", 255), Some(0));
    assert_eq!(atomic_amount("184467440737.09551615", 8), Some(u64::MAX));
    assert_eq!(atomic_amount("18446744073709551615", 0), Some(u64::MAX));
    assert!(is_all_digits("0123456789"));
    assert!(is_all_digits(""));
    assert!(!is_all_digits("12a"));
}

#[test]
fn decimal_amount_is_never_rounded() {
    assert_eq!(atomic_amount("12.505", 2), None);
    assert_eq!(atomic_amount("12.500", 2), None);
    assert_eq!(atomic_amount("1.5", 0), None);
    assert_eq!(atomic_amount("12.", 2), None);
    assert_eq!(atomic_amount(".5", 2), None);
    assert_eq!(atomic_amount("", 2), None);
    assert_eq!(atomic_amount("+7", 2), None);
    assert_eq!(atomic_amount("-7", 2), None);
    assert_eq!(atomic_amount("1e3", 2), None);
    assert_eq!(atomic_amount("1.2.3", 4), None);
    assert_eq!(atomic_amount("184467440737.09551616", 8), None);
    assert_eq!(atomic_amount("1", 20), None);
    assert_eq!(atomic_amount("18446744073709551616", 0), None);
}
