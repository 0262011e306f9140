use near_clp::pricing::{calc_in_amount, calc_out_amount};
use near_clp::{ClpError, Fee};

#[test]
fn standard_fee_is_three_in_a_thousand() {
    assert_eq!(Fee::standard(), Fee { num: 3, den: 1000 });
    assert_eq!(Fee::default(), Fee::standard());
    assert_eq!(Fee::new(3, 1000), Some(Fee::standard()));
    assert_eq!(Fee::new(0, 1), Some(Fee { num: 0, den: 1 }));
    assert_eq!(Fee::new(5, 5), None);
    assert_eq!(Fee::new(1, 0), None);
}

#[test]
fn exact_in_price() {
    let fee = Fee::standard();
    // floor(100 * 997 * 500 / (3000 * 1000 + 100 * 997)) = floor(49850000 / 3099700)
    assert_eq!(calc_out_amount(100, 3000, 500, fee), Ok(16));
    assert_eq!(calc_out_amount(1000, 1_000_000, 1_000_000, fee), Ok(996));
    assert_eq!(calc_out_amount(996, 1_000_000, 1_000_000, fee), Ok(992));
    assert_eq!(calc_out_amount(0, 3000, 500, fee), Ok(0));
    assert_eq!(calc_out_amount(1, 3000, 500, fee), Ok(0));
}

#[test]
fn exact_out_price() {
    let fee = Fee::standard();
    // floor(3000 * 50 * 1000 / ((500 - 50) * 997)) + 1 = floor(150000000 / 448650) + 1
    assert_eq!(calc_in_amount(50, 500, 3000, fee), Ok(335));
    assert_eq!(calc_in_amount(0, 500, 3000, fee), Ok(1));
    assert_eq!(calc_in_amount(499, 500, 3000, fee), Ok(3000 * 499 * 1000 / 997 + 1));
}

#[test]
fn exact_out_price_needs_a_reserve_left() {
    let fee = Fee::standard();
    assert_eq!(calc_in_amount(500, 500, 3000, fee), Err(ClpError::Depleted));
    assert_eq!(calc_in_amount(501, 500, 3000, fee), Err(ClpError::Depleted));
}

#[test]
fn empty_pool_rejection() {
    let fee = Fee::standard();
    assert_eq!(calc_out_amount(10, 0, 500, fee), Err(ClpError::Depleted));
    assert_eq!(calc_out_amount(10, 3000, 0, fee), Err(ClpError::Depleted));
    assert_eq!(calc_out_amount(10, 0, 0, fee), Err(ClpError::Depleted));
    assert_eq!(calc_in_amount(10, 0, 3000, fee), Err(ClpError::Depleted));
    assert_eq!(calc_in_amount(10, 500, 0, fee), Err(ClpError::Depleted));
    assert_eq!(calc_in_amount(0, 0, 0, fee), Err(ClpError::Depleted));
}

#[test]
fn the_quoted_price_buys_what_it_was_quoted_for() {
    let fee = Fee::standard();
    let pay = calc_in_amount(123, 1_000_000, 500_000, fee).unwrap();
    assert_eq!(pay, 62);
    assert_eq!(calc_out_amount(pay, 500_000, 1_000_000, fee), Ok(123));
    for y in [1u128, 2, 49, 250, 498, 499] {
        let pay = calc_in_amount(y, 500, 3000, fee).unwrap();
        assert!(calc_out_amount(pay, 3000, 500, fee).unwrap() >= y);
    }
}

#[test]
fn a_trade_never_lowers_the_product() {
    let fee = Fee::standard();
    for amount in [1u128, 2, 3, 100, 2999, 3000, 1_000_000] {
        let out = calc_out_amount(amount, 3000, 500, fee).unwrap();
        assert!(out < 500);
        assert!((3000 + amount) * (500 - out) >= 3000 * 500);
    }
    for amount in [1u128, 50, 499] {
        let pay = calc_in_amount(amount, 500, 3000, fee).unwrap();
        assert!((3000 + pay) * (500 - amount) > 3000 * 500);
    }
    let free = Fee { num: 0, den: 1 };
    // without a fee an exact division keeps the product as it is
    assert_eq!(calc_out_amount(3000, 3000, 500, free), Ok(250));
    assert_eq!((3000 + 3000) * (500 - 250), 3000 * 500);
}

#[test]
fn values_too_wide_are_an_arithmetic_failure() {
    let fee = Fee::standard();
    // the numerator needs more than 256 bits
    assert_eq!(calc_out_amount(u128::MAX, 1, u128::MAX, fee), Err(ClpError::Arith));
    assert_eq!(calc_in_amount(u128::MAX - 1, u128::MAX, u128::MAX, fee), Err(ClpError::Arith));
    // the price itself needs more than 128 bits
    assert_eq!(calc_in_amount(1 << 100, (1 << 100) + 1, 1 << 100, fee), Err(ClpError::Arith));
    // the widest values that still go through
    assert_eq!(calc_out_amount(u128::MAX, u128::MAX, 1, fee), Ok(0));
    let wide = Fee { num: 0, den: u128::MAX };
    assert_eq!(calc_out_amount(2, u128::MAX, 2, wide), Ok(0));
    // the denominator needs more than 256 bits
    assert_eq!(calc_out_amount(3, u128::MAX, 2, wide), Err(ClpError::Arith));
}
