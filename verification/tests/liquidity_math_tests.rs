use pool::errors::PoolError;
use pool::math::{add_delta, get_liquidity_from_amounts, tick_to_sqrt_price};

const ONE: u128 = 1u128 << 64;

#[test]
fn add_delta_adds_a_positive_change() {
    assert_eq!(add_delta(1_000, 250), Ok(1_250));
    assert_eq!(add_delta(0, i128::MAX), Ok(i128::MAX as u128));
}

#[test]
fn add_delta_removes_what_fits() {
    assert_eq!(add_delta(1_000, -250), Ok(750));
    assert_eq!(add_delta(1_000, -1_000), Ok(0));
    assert_eq!(add_delta(u128::MAX, i128::MIN), Ok(u128::MAX - (1u128 << 127)));
}

#[test]
fn add_delta_of_zero_leaves_liquidity() {
    assert_eq!(add_delta(0, 0), Ok(0));
    assert_eq!(add_delta(77, 0), Ok(77));
    assert_eq!(add_delta(u128::MAX, 0), Ok(u128::MAX));
}

#[test]
fn add_delta_fails_when_more_is_removed_than_there_is() {
    assert_eq!(add_delta(1_000, -1_001), Err(PoolError::LiquidityOverflow));
    assert_eq!(add_delta(0, -1), Err(PoolError::LiquidityOverflow));
    assert_eq!(add_delta(5, i128::MIN), Err(PoolError::LiquidityOverflow));
}

#[test]
fn add_delta_fails_on_unsigned_overflow() {
    assert_eq!(add_delta(u128::MAX, 1), Err(PoolError::LiquidityOverflow));
    assert_eq!(add_delta(u128::MAX - 4, 5), Err(PoolError::LiquidityOverflow));
    assert_eq!(add_delta(u128::MAX - 5, 5), Ok(u128::MAX));
}

#[test]
fn liquidity_below_the_range_uses_only_asset_a() {
    let lower = tick_to_sqrt_price(-100).unwrap();
    let upper = tick_to_sqrt_price(100).unwrap();
    assert_eq!(get_liquidity_from_amounts(lower - 5, lower, upper, 1_000_000, 777), Ok(995_012));
    assert_eq!(get_liquidity_from_amounts(lower - 5, lower, upper, 1_000_000, 0), Ok(995_012));
}

#[test]
fn liquidity_on_the_lower_bound_uses_only_asset_a() {
    let lower = tick_to_sqrt_price(-100).unwrap();
    let upper = tick_to_sqrt_price(100).unwrap();
    assert_eq!(get_liquidity_from_amounts(lower, lower, upper, 1_000_000, 777), Ok(995_012));
    assert_eq!(
        get_liquidity_from_amounts(lower, lower, upper, 1_000_000, u64::MAX),
        Ok(995_012)
    );
}

#[test]
fn liquidity_inside_the_range_is_the_scarcer_asset() {
    let lower = tick_to_sqrt_price(-100).unwrap();
    let upper = tick_to_sqrt_price(100).unwrap();
    // asset B is scarce
    assert_eq!(get_liquidity_from_amounts(ONE, lower, upper, 1_000_000, 5_000), Ok(997_552));
    // asset A is scarce
    assert_eq!(get_liquidity_from_amounts(ONE, lower, upper, 1_000_000, 50_000), Ok(1_000_000));
}

#[test]
fn liquidity_on_and_above_the_upper_bound_uses_only_asset_b() {
    let lower = tick_to_sqrt_price(-100).unwrap();
    let upper = tick_to_sqrt_price(100).unwrap();
    assert_eq!(get_liquidity_from_amounts(upper, lower, upper, 1_000_000, 5_000), Ok(500_022));
    assert_eq!(get_liquidity_from_amounts(upper, lower, upper, 0, 5_000), Ok(500_022));
    assert_eq!(get_liquidity_from_amounts(upper + 9, lower, upper, 3, 5_000), Ok(500_022));
}

#[test]
fn liquidity_fails_where_the_product_overflows() {
    assert_eq!(
        get_liquidity_from_amounts(1, u128::MAX, u128::MAX, 2, 0),
        Err(PoolError::LiquidityOverflow)
    );
    assert_eq!(
        get_liquidity_from_amounts(u128::MAX - 1, 1, u128::MAX, 2, 0),
        Err(PoolError::LiquidityOverflow)
    );
}

#[test]
fn liquidity_fails_on_an_empty_or_inverted_range_above_it() {
    assert_eq!(get_liquidity_from_amounts(20, 10, 10, 1, 1), Err(PoolError::LiquidityOverflow));
    assert_eq!(get_liquidity_from_amounts(20, 10, 5, 1, 1), Err(PoolError::LiquidityOverflow));
}
