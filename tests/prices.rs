use product_scraper::price::{parse_price, Price};

fn price(mantissa: u64, scale: usize) -> Option<Price> {
    Some(Price { negative: false, mantissa, scale })
}

#[test]
fn absent_text_has_no_price() {
    assert_eq!(parse_price(None), None);
}

#[test]
fn swiss_price_with_code_and_apostrophe() {
    assert_eq!(parse_price(Some("CHF 1'234,50")), price(123450, 2));
}

#[test]
fn decimal_comma() {
    assert_eq!(parse_price(Some("12,99")), price(1299, 2));
    assert_eq!(parse_price(Some("49,90")), price(4990, 2));
}

#[test]
fn decimal_point_and_surrounding_space() {
    assert_eq!(parse_price(Some("  CHF 19.99 ")), price(1999, 2));
    assert_eq!(parse_price(Some("\u{a0}7,5\u{a0}")), price(75, 1));
    assert_eq!(parse_price(Some("19.99CHF")), price(1999, 2));
}

#[test]
fn whole_numbers_and_bare_fractions() {
    assert_eq!(parse_price(Some("42")), price(42, 0));
    assert_eq!(parse_price(Some(".5")), price(5, 1));
    assert_eq!(parse_price(Some("5.")), price(5, 0));
}

#[test]
fn signed_prices() {
    assert_eq!(
        parse_price(Some("-3,25")),
        Some(Price { negative: true, mantissa: 325, scale: 2 })
    );
    assert_eq!(parse_price(Some("+3")), price(3, 0));
}

#[test]
fn text_that_is_not_a_price() {
    assert_eq!(parse_price(Some("not a price")), None);
    assert_eq!(parse_price(Some("")), None);
    assert_eq!(parse_price(Some("CHF")), None);
    assert_eq!(parse_price(Some("   ")), None);
    assert_eq!(parse_price(Some(".")), None);
    assert_eq!(parse_price(Some("1.234,50")), None);
    assert_eq!(parse_price(Some("12 99")), None);
    assert_eq!(parse_price(Some("--1")), None);
    assert_eq!(parse_price(Some("EUR 5")), None);
}

#[test]
fn largest_mantissa_and_overflow() {
    assert_eq!(parse_price(Some("18446744073709551615")), price(u64::MAX, 0));
    assert_eq!(parse_price(Some("18446744073709551616")), None);
    assert_eq!(parse_price(Some("0.0000000000000000000000001")), price(1, 25));
}
