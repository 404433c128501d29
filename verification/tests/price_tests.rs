use amm_core::errors::AmmError;
use amm_core::math::price;

#[test]
fn price_concrete_scenario() {
    // reserves (1000, 1000), 3% fee, amount 100:
    // fee = 3, net = 97, output = floor(97 * 1000 / 1097) = 88
    assert_eq!(price(100, 1000, 1000, 300), Ok(88));
}

#[test]
fn price_zero_fee() {
    // fee = 0, output = floor(100 * 1000 / 1100) = 90
    assert_eq!(price(100, 1000, 1000, 0), Ok(90));
}

#[test]
fn price_full_fee_yields_zero() {
    // a fee of the whole trade leaves nothing to price
    assert_eq!(price(100, 1000, 1000, 10000), Ok(0));
}

#[test]
fn price_fee_above_whole_underflows() {
    // fee = floor(1 * 20000 / 10000) = 2 > 1: the subtraction is refused
    assert_eq!(price(1, 10, 10, 20000), Err(AmmError::Underflow));
}

#[test]
fn price_drained_pool_underflows() {
    // input reserve zero and net input zero: the curve's denominator is zero
    assert_eq!(price(1, 0, 5, 10000), Err(AmmError::Underflow));
}

#[test]
fn price_zero_input_reserve_pays_whole_net_input_rate() {
    // with a zero input reserve the curve degenerates: floor(5 * 100 / 5)
    assert_eq!(price(5, 0, 100, 0), Ok(100));
}

#[test]
fn price_zero_output_reserve_pays_nothing() {
    assert_eq!(price(100, 1000, 0, 300), Ok(0));
}

#[test]
fn price_deterministic() {
    let a = price(123456, 999_999, 888_888, 250);
    let b = price(123456, 999_999, 888_888, 250);
    assert_eq!(a, b);
    assert!(a.is_ok());
}

#[test]
fn price_monotone_in_amount() {
    let small = price(50, 1000, 1000, 300).unwrap();
    let large = price(100, 1000, 1000, 300).unwrap();
    assert!(small <= large);
}

#[test]
fn price_antitone_in_fee() {
    let low_fee = price(100, 1000, 1000, 300).unwrap();
    let high_fee = price(100, 1000, 1000, 500).unwrap();
    assert!(high_fee <= low_fee);
}

#[test]
fn price_output_below_reserve() {
    // a positive input reserve: no single trade fully drains the pool
    let out = price(u64::MAX, 1, 1000, 0).unwrap();
    assert!(out < 1000);
}

#[test]
fn price_large_values_no_overflow() {
    // widened intermediates: the largest inputs still price without overflow
    let out = price(u64::MAX, u64::MAX, u64::MAX, 10000 - 1).unwrap();
    assert!(out <= u64::MAX);
}
