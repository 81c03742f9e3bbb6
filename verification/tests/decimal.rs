use w3bay::decimal::Decimal;
use w3bay::text::{number_text, parse_number, parse_number_u32};

fn atomics(d: Decimal) -> u128 {
    let mut low = [0u8; 16];
    low.copy_from_slice(&d.bytes[16..]);
    assert_eq!(&d.bytes[..16], &[0u8; 16]);
    u128::from_be_bytes(low)
}

#[test]
fn decimals_count_in_atomic_units() {
    assert_eq!(atomics(Decimal::one()), 1_000_000_000_000_000_000);
    assert_eq!(atomics(Decimal::percent(7)), 70_000_000_000_000_000);
    assert_eq!(atomics(Decimal::from_units(12)), 12_000_000_000_000_000_000);
    assert_eq!(atomics(Decimal::from_ratio(1, 3)), 333_333_333_333_333_333);
    assert_eq!(atomics(Decimal::from_ratio(7, 2)), 3_500_000_000_000_000_000);
}

#[test]
fn decimal_arithmetic_rounds_down() {
    let third = Decimal::from_ratio(1, 3);
    let seven = Decimal::from_units(7);
    assert_eq!(atomics(seven.checked_mul(third).unwrap()), 2_333_333_333_333_333_331);
    assert_eq!(atomics(seven.checked_div(Decimal::from_units(3)).unwrap()), 2_333_333_333_333_333_333);
    assert_eq!(atomics(seven.checked_add(third).unwrap()), 7_333_333_333_333_333_333);
    assert_eq!(atomics(seven.checked_sub(third).unwrap()), 6_666_666_666_666_666_667);
    assert_eq!(third.checked_sub(seven), None);
    assert_eq!(seven.checked_div(Decimal::from_units(0)), None);
    let max = Decimal { bytes: [255u8; 32] };
    assert_eq!(max.checked_add(Decimal::from_ratio(1, 1_000_000_000_000_000_000)), None);
    assert_eq!(max.checked_mul(Decimal::from_units(2)), None);
    assert_eq!(max.checked_mul(Decimal::one()), Some(max));
    assert_eq!(max.checked_div(Decimal::percent(50)), None);
}

#[test]
fn decimals_round_to_whole_coins() {
    let d = Decimal::from_ratio(12_345, 1_000);
    assert_eq!(d.to_uint_floor(), Some(12));
    assert_eq!(d.to_uint_ceil(), Some(13));
    assert_eq!(Decimal::from_units(75).to_uint_floor(), Some(75));
    assert_eq!(Decimal::from_units(75).to_uint_ceil(), Some(75));
    assert_eq!(Decimal::from_units(0).to_uint_ceil(), Some(0));
    let big = Decimal::from_units(u128::MAX);
    assert_eq!(big.to_uint_floor(), Some(u128::MAX));
    let bigger = big.checked_add(Decimal::percent(1)).unwrap();
    assert_eq!(bigger.to_uint_floor(), Some(u128::MAX));
    assert_eq!(bigger.to_uint_ceil(), None);
    assert_eq!(big.checked_add(Decimal::one()).unwrap().to_uint_floor(), None);
}

#[test]
fn decimals_are_ordered_by_value() {
    assert!(Decimal::from_ratio(1, 3).lt(Decimal::percent(34)));
    assert!(!Decimal::percent(34).lt(Decimal::from_ratio(1, 3)));
    assert!(!Decimal::one().lt(Decimal::percent(100)));
    assert!(Decimal::from_units(255).lt(Decimal::from_units(256)));
}

#[test]
fn numbers_are_written_and_read_in_decimal() {
    assert_eq!(number_text(0), "0");
    assert_eq!(number_text(1_203), "1203");
    assert_eq!(number_text(u64::MAX), "18446744073709551615");
    assert_eq!(parse_number("1203"), Some(1_203));
    assert_eq!(parse_number("+7"), Some(7));
    assert_eq!(parse_number("007"), Some(7));
    assert_eq!(parse_number(""), None);
    assert_eq!(parse_number("+"), None);
    assert_eq!(parse_number("-7"), None);
    assert_eq!(parse_number(" 7"), None);
    assert_eq!(parse_number("7a"), None);
    assert_eq!(parse_number("18446744073709551616"), None);
    assert_eq!(parse_number_u32("4294967295"), Some(u32::MAX));
    assert_eq!(parse_number_u32("4294967296"), None);
    assert_eq!(parse_number_u32("x"), None);
    for n in [0u64, 9, 10, 99, 100, 4_294_967_296, u64::MAX] {
        assert_eq!(parse_number(&number_text(n)), Some(n));
    }
}
