use lib::error::AdrenaError;
use lib::math::{
    checked_as_i64, checked_as_u64, checked_bps_mul, checked_decimal_div, checked_decimal_mul,
    checked_i64_as_u64, checked_pow10,
};

#[test]
fn as_u64_fits_and_overflows() {
    assert_eq!(checked_as_u64(42), Ok(42));
    assert_eq!(checked_as_u64(u64::MAX as u128), Ok(u64::MAX));
    assert_eq!(checked_as_u64(u64::MAX as u128 + 1), Err(AdrenaError::MathOverflow));
}

#[test]
fn as_i64_and_back() {
    assert_eq!(checked_as_i64(7), Ok(7));
    assert_eq!(checked_as_i64(i64::MAX as u64), Ok(i64::MAX));
    assert_eq!(checked_as_i64(i64::MAX as u64 + 1), Err(AdrenaError::MathOverflow));
    assert_eq!(checked_i64_as_u64(0), Ok(0));
    assert_eq!(checked_i64_as_u64(1_700_000_000), Ok(1_700_000_000));
    assert_eq!(checked_i64_as_u64(-1), Err(AdrenaError::MathOverflow));
}

#[test]
fn bps_multiplier() {
    // 1.5x of 1_000 is 1_500.
    assert_eq!(checked_bps_mul(1_000, 15_000), Ok(1_500));
    // Rounded down.
    assert_eq!(checked_bps_mul(3, 3_333), Ok(0));
    assert_eq!(checked_bps_mul(7, 10_000), Ok(7));
    assert_eq!(checked_bps_mul(u64::MAX, 20_000), Err(AdrenaError::MathOverflow));
}

#[test]
fn powers_of_ten() {
    assert_eq!(checked_pow10(0), Ok(1));
    assert_eq!(checked_pow10(6), Ok(1_000_000));
    assert_eq!(checked_pow10(38), Ok(100_000_000_000_000_000_000_000_000_000_000_000_000));
    assert_eq!(checked_pow10(39), Err(AdrenaError::MathOverflow));
}

#[test]
fn decimal_multiplication() {
    // 2.5 (6 decimals) * 4 (9 decimals) = 10 with 6 decimals.
    assert_eq!(checked_decimal_mul(2_500_000, -6, 4_000_000_000, -9, -6), Ok(10_000_000));
    // Rounded down: 0.000001 * 0.5 with 6 decimals is 0.
    assert_eq!(checked_decimal_mul(1, -6, 500_000_000, -9, -6), Ok(0));
    // A positive exponent scales up.
    assert_eq!(checked_decimal_mul(3, 0, 4, 0, -2), Ok(1_200));
    assert_eq!(checked_decimal_mul(u64::MAX, 0, u64::MAX, 0, 0), Err(AdrenaError::MathOverflow));
}

#[test]
fn decimal_division() {
    // A pool worth 1_000 USD (6 decimals) with 500 LP tokens (6 decimals): 2 USD per LP token
    // with 10 decimals.
    assert_eq!(
        checked_decimal_div(1_000_000_000, -6, 500_000_000, -6, -10),
        Ok(20_000_000_000)
    );
    // 1 / 3 with 2 decimals.
    assert_eq!(checked_decimal_div(1, 0, 3, 0, -2), Ok(33));
    // Target coarser than the operands.
    assert_eq!(checked_decimal_div(1_000, 0, 1, 0, 2), Ok(10));
    assert_eq!(checked_decimal_div(u64::MAX, 0, 1, 0, -1), Err(AdrenaError::MathOverflow));
}
