use near_clp::wide::{mul_div, U256};

#[test]
fn full_product_of_two_words() {
    let p = U256::mul_u128(u128::MAX, u128::MAX);
    assert_eq!(p, U256 { hi: u128::MAX - 1, lo: 1 });
    let p = U256::mul_u128(0x123456789abcdef0123456789abcdef0, 0xfedcba9876543210fedcba9876543210);
    assert_eq!(p.hi, 0x121fa00ad77d742247acc9140513b744);
    assert_eq!(p.lo, 0x58fab20783af1222236d88fe5618cf00);
    assert_eq!(U256::mul_u128(0, u128::MAX), U256::zero());
    assert_eq!(U256::mul_u128(7, 6), U256::from_u128(42));
}

#[test]
fn narrowing_keeps_what_fits() {
    assert_eq!(U256::from_u128(9).as_u128(), Some(9));
    assert_eq!(U256 { hi: 0, lo: u128::MAX }.as_u128(), Some(u128::MAX));
    assert_eq!(U256 { hi: 1, lo: 0 }.as_u128(), None);
}

#[test]
fn checked_sum_carries_and_overflows() {
    let a = U256 { hi: 1, lo: u128::MAX };
    let b = U256 { hi: 2, lo: 1 };
    assert_eq!(a.checked_add(b), Some(U256 { hi: 4, lo: 0 }));
    let top = U256 { hi: u128::MAX, lo: u128::MAX };
    assert_eq!(top.checked_add(U256::from_u128(1)), None);
    assert_eq!(top.checked_add(U256::zero()), Some(top));
    assert_eq!(U256 { hi: u128::MAX, lo: 0 }.checked_add(U256 { hi: 1, lo: 0 }), None);
}

#[test]
fn checked_product_overflows_past_256_bits() {
    let two_128 = U256 { hi: 1, lo: 0 };
    assert_eq!(two_128.checked_mul(two_128), None);
    assert_eq!(two_128.checked_mul(U256::from_u128(u128::MAX)), Some(U256 { hi: u128::MAX, lo: 0 }));
    assert_eq!(U256::from_u128(u128::MAX).checked_mul(two_128), Some(U256 { hi: u128::MAX, lo: 0 }));
    let big = U256 { hi: 1 << 127, lo: 5 };
    assert_eq!(big.checked_mul(U256::from_u128(2)), None);
    assert_eq!(big.checked_mul(U256::from_u128(1)), Some(big));
    let x = U256 { hi: 3, lo: u128::MAX };
    // (4 * 2^128 - 1) * 5 = 20 * 2^128 - 5
    assert_eq!(x.checked_mul(U256::from_u128(5)), Some(U256 { hi: 19, lo: u128::MAX - 4 }));
    assert_eq!(x.checked_mul(U256::zero()), Some(U256::zero()));
}

#[test]
fn comparison_goes_by_the_number() {
    assert!(U256 { hi: 1, lo: 0 }.ge(U256 { hi: 0, lo: u128::MAX }));
    assert!(!U256 { hi: 0, lo: u128::MAX }.ge(U256 { hi: 1, lo: 0 }));
    assert!(U256 { hi: 2, lo: 7 }.ge(U256 { hi: 2, lo: 7 }));
    assert!(!U256 { hi: 2, lo: 6 }.ge(U256 { hi: 2, lo: 7 }));
}

#[test]
fn long_division() {
    // 2^200 + 12345 divided by 3^40
    let n = U256 { hi: 1 << 72, lo: 12345 };
    let d = U256::from_u128(12157665459056928801);
    let (q, r) = n.div_rem(d);
    assert_eq!(q, U256 { hi: 388, lo: 145327485140839012805122942001426550824 });
    assert_eq!(r, U256::from_u128(9653106612296260369));
    assert_eq!(n.div(d), q);

    let n = U256 { hi: u128::MAX, lo: u128::MAX };
    let d = U256 { hi: 5, lo: 7 };
    let (q, r) = n.div_rem(d);
    assert_eq!(q, U256::from_u128(68056473384187692692674921486353642290));
    assert_eq!(r, U256 { hi: 4, lo: 204169420152563078078024764459060926881 });

    assert_eq!(n.div_rem(n), (U256::from_u128(1), U256::zero()));
    assert_eq!(n.div_rem(U256::from_u128(1)), (n, U256::zero()));
    assert_eq!(U256::from_u128(5).div_rem(n), (U256::zero(), U256::from_u128(5)));
}

#[test]
fn multiply_then_divide() {
    assert_eq!(mul_div(100, 3, 7), Some(42));
    assert_eq!(mul_div(u128::MAX, u128::MAX, u128::MAX), Some(u128::MAX));
    assert_eq!(mul_div(u128::MAX, 2, 1), None);
    assert_eq!(mul_div(u128::MAX, 2, 2), Some(u128::MAX));
    assert_eq!(mul_div(1 << 127, 1 << 127, 1 << 126), None);
    assert_eq!(mul_div(1 << 127, 1 << 127, 1 << 127), Some(1 << 127));
    assert_eq!(mul_div(0, 0, 1), Some(0));
}
