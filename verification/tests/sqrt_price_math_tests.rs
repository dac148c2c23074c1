use pool::errors::PoolError;
use pool::math::sqrt_price_math::{
    amount_delta_a_wide, amount_delta_b_wide, div_ceil, product_less, wide_mul,
};
use pool::math::{get_amount_delta_a, get_amount_delta_b, tick_to_sqrt_price};

const ONE: u128 = 1u128 << 64;

#[test]
fn delta_a_is_the_difference_of_the_two_quotients() {
    // liquidity * 2^64 / 2^64 - liquidity * 2^64 / 2^65 = 1000 - 500
    assert_eq!(get_amount_delta_a(ONE, 2 * ONE, 1_000, true), Ok(500));
    assert_eq!(get_amount_delta_a(ONE, 2 * ONE, 1_000, false), Ok(500));
}

#[test]
fn delta_a_rounds_up_for_the_pool_and_down_for_the_trader() {
    let lower = tick_to_sqrt_price(-100).unwrap();
    let upper = tick_to_sqrt_price(100).unwrap();
    assert_eq!(get_amount_delta_a(lower, upper, 1_000_000, true), Ok(10_000));
    assert_eq!(get_amount_delta_a(lower, upper, 1_000_000, false), Ok(9_999));
}

#[test]
fn delta_a_is_the_exact_amount_rounded_once() {
    // 2^64 * (1/3 - 1/11) = 4471937957262921603.87..
    assert_eq!(get_amount_delta_a(3, 11, 1, true), Ok(4_471_937_957_262_921_604));
    assert_eq!(get_amount_delta_a(3, 11, 1, false), Ok(4_471_937_957_262_921_603));
    // 2^64 * (1/3 - 1/5) = 2459565876494606882.13..
    assert_eq!(get_amount_delta_a(3, 5, 1, false), Ok(2_459_565_876_494_606_882));
    assert_eq!(get_amount_delta_a(3, 5, 1, true), Ok(2_459_565_876_494_606_883));
    // an exact amount is not rounded at all
    assert_eq!(get_amount_delta_a(2, 4, 1, true), Ok(4_611_686_018_427_387_904));
    assert_eq!(get_amount_delta_a(2, 4, 1, false), Ok(4_611_686_018_427_387_904));
}

#[test]
fn delta_a_does_not_depend_on_the_order_of_the_prices() {
    let lower = tick_to_sqrt_price(-100).unwrap();
    let upper = tick_to_sqrt_price(100).unwrap();
    assert_eq!(get_amount_delta_a(upper, lower, 1_000_000, true), Ok(10_000));
    assert_eq!(get_amount_delta_a(upper, lower, 1_000_000, false), Ok(9_999));
}

#[test]
fn delta_a_between_equal_prices_is_zero() {
    assert_eq!(get_amount_delta_a(ONE, ONE, u128::MAX, true), Ok(0));
    assert_eq!(get_amount_delta_a(0, 0, 5, false), Ok(0));
}

#[test]
fn delta_a_refuses_a_price_of_zero() {
    assert_eq!(get_amount_delta_a(0, ONE, 5, true), Err(PoolError::SqrtPriceOutOfBounds));
}

#[test]
fn delta_a_refuses_liquidity_that_does_not_fit() {
    assert_eq!(get_amount_delta_a(ONE, 2 * ONE, 1u128 << 64, true), Err(PoolError::LiquidityOverflow));
}

#[test]
fn delta_a_refuses_an_amount_above_64_bits() {
    assert_eq!(get_amount_delta_a(1, 2, 1u128 << 63, true), Err(PoolError::LiquidityOverflow));
    assert_eq!(amount_delta_a_wide(1, 2, 1u128 << 63, true), Ok(1u128 << 126));
}

#[test]
fn delta_a_wide_matches_small_prices() {
    assert_eq!(amount_delta_a_wide(3, 7, 1, true), Ok(3_513_665_537_849_438_404));
    assert_eq!(amount_delta_a_wide(3, 7, 1, false), Ok(3_513_665_537_849_438_403));
}

#[test]
fn delta_b_is_liquidity_times_the_price_span() {
    assert_eq!(get_amount_delta_b(ONE, 2 * ONE, 1_000, true), Ok(1_000));
    assert_eq!(get_amount_delta_b(ONE, 2 * ONE, 1_000, false), Ok(1_000));
}

#[test]
fn delta_b_rounds_up_only_when_something_is_left_over() {
    // 3 * (2^63 + 1) / 2^64 = 1.5 and a bit
    assert_eq!(get_amount_delta_b(ONE, ONE + ONE / 2 + 1, 3, true), Ok(2));
    assert_eq!(get_amount_delta_b(ONE, ONE + ONE / 2 + 1, 3, false), Ok(1));
    let lower = tick_to_sqrt_price(-100).unwrap();
    let upper = tick_to_sqrt_price(100).unwrap();
    assert_eq!(get_amount_delta_b(lower, upper, 1_000_000, true), Ok(10_000));
    assert_eq!(get_amount_delta_b(upper, lower, 1_000_000, false), Ok(9_999));
}

#[test]
fn delta_b_with_no_liquidity_or_no_span_is_zero() {
    assert_eq!(get_amount_delta_b(1, u128::MAX, 0, true), Ok(0));
    assert_eq!(get_amount_delta_b(ONE, ONE, u128::MAX, true), Ok(0));
}

#[test]
fn delta_b_refuses_what_does_not_fit() {
    assert_eq!(get_amount_delta_b(0, u128::MAX, 2, true), Err(PoolError::LiquidityOverflow));
    assert_eq!(get_amount_delta_b(0, ONE, 1u128 << 64, false), Err(PoolError::LiquidityOverflow));
    assert_eq!(amount_delta_b_wide(0, ONE, 1u128 << 63, false), Ok(1u128 << 63));
    assert_eq!(get_amount_delta_b(0, ONE, 1u128 << 63, false), Ok(1u64 << 63));
}

#[test]
fn wide_mul_holds_the_whole_product() {
    assert_eq!(wide_mul(0, u128::MAX), (0, 0));
    assert_eq!(wide_mul(3, 5), (0, 15));
    assert_eq!(wide_mul(1u128 << 64, 1u128 << 64), (1, 0));
    assert_eq!(wide_mul(u128::MAX, 2), (1, u128::MAX - 1));
    assert_eq!(wide_mul(u128::MAX, u128::MAX), (u128::MAX - 1, 1));
    assert_eq!(wide_mul((1u128 << 100) + 7, (1u128 << 90) + 3), (1u128 << 62, (3u128 << 100) + (7u128 << 90) + 21));
}

#[test]
fn products_compare_in_full_width() {
    assert!(product_less(2, 3, 7, 1));
    assert!(!product_less(7, 1, 2, 3));
    assert!(!product_less(2, 3, 3, 2));
    assert!(product_less(u128::MAX, u128::MAX - 1, u128::MAX, u128::MAX));
    assert!(!product_less(u128::MAX, u128::MAX, u128::MAX, u128::MAX - 1));
    assert!(product_less(u128::MAX, 1, 1u128 << 64, 1u128 << 64));
    assert!(product_less(0, u128::MAX, 1, 1));
}

#[test]
fn div_ceil_rounds_up() {
    assert_eq!(div_ceil(10, 5), 2);
    assert_eq!(div_ceil(11, 5), 3);
    assert_eq!(div_ceil(0, 5), 0);
    assert_eq!(div_ceil(u128::MAX, 1), u128::MAX);
}
