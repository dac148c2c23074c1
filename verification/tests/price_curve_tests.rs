use pool::constants::{MAX_TICK_INDEX, MIN_TICK_INDEX};
use pool::errors::PoolError;
use pool::math::{sqrt_price_to_tick, tick_to_sqrt_price};

#[test]
fn price_at_tick_zero_is_one() {
    assert_eq!(tick_to_sqrt_price(0), Ok(1u128 << 64));
}

#[test]
fn price_moves_one_step_per_tick() {
    assert_eq!(tick_to_sqrt_price(1), Ok(18_447_666_387_854_807_001));
    assert_eq!(tick_to_sqrt_price(2), Ok(18_448_588_748_114_616_757));
    assert_eq!(tick_to_sqrt_price(-1), Ok(18_445_821_805_681_156_328));
    assert_eq!(tick_to_sqrt_price(-2), Ok(18_444_899_583_762_703_955));
    assert_eq!(tick_to_sqrt_price(100), Ok(18_539_204_128_558_548_822));
    assert_eq!(tick_to_sqrt_price(-100), Ok(18_354_745_142_768_039_233));
}

#[test]
fn price_at_the_ends_of_the_curve() {
    assert_eq!(tick_to_sqrt_price(MAX_TICK_INDEX), Ok(79_226_671_318_910_635_755_419_347_051));
    assert_eq!(tick_to_sqrt_price(MIN_TICK_INDEX), Ok(4_295_048_634));
}

#[test]
fn a_tick_out_of_bounds_has_no_price() {
    assert_eq!(tick_to_sqrt_price(MAX_TICK_INDEX + 1), Err(PoolError::InvalidTickIndex));
    assert_eq!(tick_to_sqrt_price(MIN_TICK_INDEX - 1), Err(PoolError::InvalidTickIndex));
}

#[test]
fn a_tick_survives_the_round_trip() {
    let ticks = [
        MIN_TICK_INDEX,
        MIN_TICK_INDEX + 1,
        -250_000,
        -4_400,
        -352,
        -1,
        0,
        1,
        77,
        10_000,
        300_001,
        MAX_TICK_INDEX - 1,
        MAX_TICK_INDEX,
    ];
    for t in ticks {
        let price = tick_to_sqrt_price(t).unwrap();
        assert_eq!(sqrt_price_to_tick(price), Ok(t));
    }
}

#[test]
fn price_to_tick_floors() {
    let at_five = tick_to_sqrt_price(5).unwrap();
    let at_six = tick_to_sqrt_price(6).unwrap();
    assert_eq!(sqrt_price_to_tick(at_five + 1), Ok(5));
    assert_eq!(sqrt_price_to_tick(at_six - 1), Ok(5));
    assert_eq!(sqrt_price_to_tick(at_six), Ok(6));
    let below = tick_to_sqrt_price(-7).unwrap();
    assert_eq!(sqrt_price_to_tick(below + 1), Ok(-7));
    assert_eq!(sqrt_price_to_tick(below - 1), Ok(-8));
    assert_eq!(sqrt_price_to_tick((1u128 << 64) - 1), Ok(-1));
}

#[test]
fn price_to_tick_and_back_is_not_above_the_price() {
    let prices = [4_295_048_634u128, 5_000_000_000, (1u128 << 64) - 1, 1u128 << 70, 1u128 << 90];
    for p in prices {
        let t = sqrt_price_to_tick(p).unwrap();
        assert!(tick_to_sqrt_price(t).unwrap() <= p);
        if t < MAX_TICK_INDEX {
            assert!(tick_to_sqrt_price(t + 1).unwrap() > p);
        }
    }
}

#[test]
fn a_price_off_the_curve_has_no_tick() {
    assert_eq!(sqrt_price_to_tick(0), Err(PoolError::SqrtPriceOutOfBounds));
    assert_eq!(
        sqrt_price_to_tick(79_226_671_318_910_635_755_419_347_052),
        Err(PoolError::SqrtPriceOutOfBounds)
    );
    assert_eq!(sqrt_price_to_tick(u128::MAX), Err(PoolError::SqrtPriceOutOfBounds));
}

#[test]
fn a_price_below_the_lowest_tick_stands_just_below_it() {
    assert_eq!(sqrt_price_to_tick(1), Ok(MIN_TICK_INDEX - 1));
    assert_eq!(sqrt_price_to_tick(4_295_048_633), Ok(MIN_TICK_INDEX - 1));
    assert_eq!(sqrt_price_to_tick(4_295_048_634), Ok(MIN_TICK_INDEX));
    assert_eq!(sqrt_price_to_tick(4_295_048_635), Ok(MIN_TICK_INDEX));
}

#[test]
fn every_price_within_the_bounds_has_a_tick() {
    for p in [1u128, 2, 1_000, 1u128 << 31, 1u128 << 32, 1u128 << 33, 1u128 << 63, u64::MAX as u128] {
        let t = sqrt_price_to_tick(p).unwrap();
        assert!(MIN_TICK_INDEX - 1 <= t && t <= -1);
        if t >= MIN_TICK_INDEX {
            assert!(tick_to_sqrt_price(t).unwrap() <= p);
        }
        assert!(tick_to_sqrt_price(t + 1).unwrap() > p);
    }
}

#[test]
fn the_curve_rises_with_the_tick() {
    let mut last = tick_to_sqrt_price(-50).unwrap();
    for t in -49..50 {
        let p = tick_to_sqrt_price(t).unwrap();
        assert!(p > last);
        last = p;
    }
}
