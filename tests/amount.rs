use transaction_processor::amount::{parse_amount, UNITS_PER_WHOLE};

#[test]
fn parses_whole_and_fractional_amounts() {
    assert_eq!(parse_amount("5"), Some(50_000));
    assert_eq!(parse_amount("5.0"), Some(50_000));
    assert_eq!(parse_amount("3.0"), Some(30_000));
    assert_eq!(parse_amount("100.0"), Some(1_000_000));
    assert_eq!(parse_amount("1.2345"), Some(12_345));
    assert_eq!(parse_amount("0.5"), Some(5_000));
    assert_eq!(parse_amount(".5"), Some(5_000));
    assert_eq!(parse_amount("7."), Some(70_000));
    assert_eq!(parse_amount("007.05"), Some(70_500));
    assert_eq!(UNITS_PER_WHOLE, 10_000);
}

#[test]
fn parses_signs() {
    assert_eq!(parse_amount("-5.25"), Some(-52_500));
    assert_eq!(parse_amount("+5.25"), Some(52_500));
    assert_eq!(parse_amount("-0"), Some(0));
}

#[test]
fn rejects_malformed_amounts() {
    assert_eq!(parse_amount(""), None);
    assert_eq!(parse_amount("-"), None);
    assert_eq!(parse_amount("."), None);
    assert_eq!(parse_amount("-."), None);
    assert_eq!(parse_amount("1.23456"), None);
    assert_eq!(parse_amount("1.2.3"), None);
    assert_eq!(parse_amount("12a"), None);
    assert_eq!(parse_amount(" 1"), None);
    assert_eq!(parse_amount("--1"), None);
    assert_eq!(parse_amount("1e3"), None);
}

#[test]
fn amount_range_edges() {
    assert_eq!(parse_amount("922337203685477.5807"), Some(i64::MAX));
    assert_eq!(parse_amount("922337203685477.5808"), None);
    assert_eq!(parse_amount("-922337203685477.5808"), Some(i64::MIN));
    assert_eq!(parse_amount("-922337203685477.5809"), None);
    assert_eq!(parse_amount("922337203685478"), None);
    assert_eq!(parse_amount("99999999999999999999999999"), None);
}
