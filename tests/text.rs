use quicky::decimal::Decimal;
use quicky::text::{append_decimal, append_hex, parse_decimal, u64_to_string};

fn dec(units: u64, scale: u32) -> Decimal {
    Decimal { units, scale }
}

fn text_of(d: Decimal) -> String {
    let mut s = String::new();
    append_decimal(&mut s, d);
    s
}

#[test]
fn decimal_text_is_shortest() {
    assert_eq!(text_of(dec(9999, 2)), "99.99");
    assert_eq!(text_of(dec(9980, 2)), "99.8");
    assert_eq!(text_of(dec(10000, 2)), "100");
    assert_eq!(text_of(dec(1, 4)), "0.0001");
    assert_eq!(text_of(dec(0, 3)), "0");
    assert_eq!(text_of(dec(5801, 4)), "0.5801");
    assert_eq!(text_of(dec(1005, 1)), "100.5");
}

#[test]
fn integer_text() {
    assert_eq!(u64_to_string(0), "0");
    assert_eq!(u64_to_string(10), "10");
    assert_eq!(u64_to_string(u64::MAX), "18446744073709551615");
}

#[test]
fn hex_text_of_bytes() {
    let mut s = String::new();
    append_hex(&mut s, &[0x00, 0x0f, 0xa5, 0xff]);
    assert_eq!(s, "000fa5ff");
}

#[test]
fn parse_price_texts() {
    assert_eq!(parse_decimal("0.5801"), Some(dec(5801, 4)));
    assert_eq!(parse_decimal("100"), Some(dec(100, 0)));
    assert_eq!(parse_decimal("100.00"), Some(dec(10000, 2)));
    assert_eq!(parse_decimal("18446744073709551615"), Some(dec(u64::MAX, 0)));
}

#[test]
fn parse_rejects_non_numbers() {
    assert_eq!(parse_decimal(""), None);
    assert_eq!(parse_decimal("abc"), None);
    assert_eq!(parse_decimal("1.2.3"), None);
    assert_eq!(parse_decimal(".5"), None);
    assert_eq!(parse_decimal("5."), None);
    assert_eq!(parse_decimal("-1"), None);
    assert_eq!(parse_decimal("1e5"), None);
    assert_eq!(parse_decimal("18446744073709551616"), None);
    assert_eq!(parse_decimal("0.0000000000000000001"), None);
}
