use pool::errors::PoolError;
use pool::keys::Pubkey;
use pool::manager::tick_manager::{
    cross_tick, growth_inside, liquidity_after_cross, update_tick,
};
use pool::manager::tick_registry::is_array_start;
use pool::manager::TickRegistry;
use pool::state::{Pool, Tick, TickArray, WhirlpoolBumps};
use pool::instructions::initialize_pool::PoolKeys;
use pool::math::tick_to_sqrt_price;
use pool::{initialize_config, initialize_fee_tier, initialize_pool, initialize_tick_array};

fn key(n: u8) -> Pubkey {
    Pubkey::new_from_array([n; 32])
}

fn pool_with_spacing(tick_spacing: u16) -> Pool {
    let config = initialize_config(255, key(20), key(21), key(22), 0).unwrap();
    let tier = initialize_fee_tier(254, key(10), tick_spacing, 3000).unwrap();
    let keys = PoolKeys {
        pool: key(9),
        config: key(10),
        fee_tier: key(11),
        token_mint_a: key(1),
        token_mint_b: key(2),
        token_vault_a: key(3),
        token_vault_b: key(4),
    };
    let price = tick_to_sqrt_price(-100).unwrap();
    initialize_pool(WhirlpoolBumps { pool_bump: 1 }, &keys, &config, &tier, tick_spacing, price)
        .unwrap()
        .0
}

fn tick(net: i128, gross: u128, outside_a: u128, outside_b: u128, rewards: [u128; 3]) -> Tick {
    Tick {
        initialized: gross > 0,
        liquidity_net: net,
        liquidity_gross: gross,
        fee_growth_outside_a: outside_a,
        fee_growth_outside_b: outside_b,
        reward_growths_outside: rewards,
    }
}

#[test]
fn tick_array_must_start_on_a_multiple_of_its_span() {
    let pool = pool_with_spacing(8);
    assert_eq!(
        initialize_tick_array(3, key(9), &pool, 100).unwrap_err(),
        PoolError::InvalidTickIndex
    );
    assert_eq!(
        initialize_tick_array(3, key(9), &pool, 8).unwrap_err(),
        PoolError::InvalidTickIndex
    );
    assert_eq!(
        initialize_tick_array(3, key(9), &pool, -703).unwrap_err(),
        PoolError::InvalidTickIndex
    );
    assert_eq!(
        initialize_tick_array(3, key(9), &pool, 88).unwrap_err(),
        PoolError::InvalidTickIndex
    );
}

#[test]
fn tick_array_on_a_multiple_of_its_span_is_made_empty() {
    let pool = pool_with_spacing(8);
    for start in [0, 704, -704, 1408, -443_520] {
        let (array, event) = initialize_tick_array(3, key(9), &pool, start).unwrap();
        assert_eq!(array.start_tick_index, start);
        assert_eq!(array.bump, 3);
        assert_eq!(array.pool, key(9));
        assert_eq!(array.ticks.len(), 88);
        assert!(array.ticks.iter().all(|t| *t == Tick::new()));
        assert_eq!(event.pool_id, key(9));
        assert_eq!(event.start_tick_index, start);
    }
}

#[test]
fn tick_array_of_spacing_one_starts_on_multiples_of_88() {
    assert!(TickArray::new(0, key(1), 88, 1).is_ok());
    assert!(TickArray::new(0, key(1), -88, 1).is_ok());
    assert_eq!(TickArray::new(0, key(1), 87, 1).unwrap_err(), PoolError::InvalidTickIndex);
    assert_eq!(TickArray::new(0, key(1), 0, 0).unwrap_err(), PoolError::InvalidTickSpacing);
    assert!(is_array_start(-704, 8));
    assert!(!is_array_start(-700, 8));
    assert!(is_array_start(0, 100));
    assert!(is_array_start(i32::MIN + 128, 1) == ((i32::MIN as i64 + 128) % 88 == 0));
}

#[test]
fn registry_refuses_a_spacing_outside_its_limits() {
    assert_eq!(TickRegistry::new(0).unwrap_err(), PoolError::InvalidTickSpacing);
    assert_eq!(TickRegistry::new(101).unwrap_err(), PoolError::InvalidTickSpacing);
    assert!(TickRegistry::new(1).is_ok());
    assert!(TickRegistry::new(100).is_ok());
}

#[test]
fn registry_refuses_a_second_array_at_the_same_start() {
    let mut registry = TickRegistry::new(8).unwrap();
    assert_eq!(registry.add_array(1, key(9), 704), Ok(()));
    assert_eq!(registry.add_array(1, key(9), 704), Err(PoolError::InvalidTickArraySequence));
    assert_eq!(registry.add_array(1, key(9), 705), Err(PoolError::InvalidTickIndex));
    assert_eq!(registry.arrays.len(), 1);
    assert_eq!(registry.find_array(704), Some(0));
    assert_eq!(registry.find_array(0), None);
}

#[test]
fn a_tick_outside_every_array_is_out_of_bounds() {
    let mut registry = TickRegistry::new(8).unwrap();
    registry.add_array(1, key(9), 0).unwrap();
    assert_eq!(registry.get_tick(704), Err(PoolError::TickArrayIndexOutOfBounds));
    assert_eq!(registry.get_tick(-8), Err(PoolError::TickArrayIndexOutOfBounds));
    assert_eq!(registry.get_tick(3), Err(PoolError::InvalidTickIndex));
    assert_eq!(registry.get_tick(443_640), Err(PoolError::InvalidTickIndex));
    assert_eq!(registry.get_tick(696), Ok(Tick::new()));
    assert_eq!(registry.locate(696), Ok((0, 87)));
    assert_eq!(registry.locate(0), Ok((0, 0)));
    assert_eq!(
        registry.set_tick(704, Tick::new()),
        Err(PoolError::TickArrayIndexOutOfBounds)
    );
}

#[test]
fn a_tick_written_is_the_tick_read() {
    let mut registry = TickRegistry::new(8).unwrap();
    registry.add_array(1, key(9), -704).unwrap();
    registry.add_array(1, key(9), 0).unwrap();
    let t = tick(5, 5, 1, 2, [3, 4, 5]);
    registry.set_tick(-8, t).unwrap();
    assert_eq!(registry.get_tick(-8), Ok(t));
    assert_eq!(registry.get_tick(-16), Ok(Tick::new()));
    assert_eq!(registry.get_tick(0), Ok(Tick::new()));
    assert_eq!(registry.arrays[0].ticks[87], t);
}

#[test]
fn next_initialized_tick_is_the_nearest_in_the_direction() {
    let mut registry = TickRegistry::new(8).unwrap();
    registry.add_array(1, key(9), -1408).unwrap();
    registry.add_array(1, key(9), 704).unwrap();
    let t = tick(5, 5, 0, 0, [0, 0, 0]);
    registry.set_tick(-1000, t).unwrap();
    registry.set_tick(-800, t).unwrap();
    registry.set_tick(720, t).unwrap();

    assert_eq!(registry.next_initialized_tick(0, true), Some(-800));
    assert_eq!(registry.next_initialized_tick(-800, true), Some(-800));
    assert_eq!(registry.next_initialized_tick(-801, true), Some(-1000));
    assert_eq!(registry.next_initialized_tick(-1001, true), None);
    assert_eq!(registry.next_initialized_tick(i32::MAX, true), Some(720));
    assert_eq!(registry.next_initialized_tick(i32::MIN, true), None);

    assert_eq!(registry.next_initialized_tick(0, false), Some(720));
    assert_eq!(registry.next_initialized_tick(719, false), Some(720));
    assert_eq!(registry.next_initialized_tick(720, false), None);
    assert_eq!(registry.next_initialized_tick(-1000, false), Some(-800));
    assert_eq!(registry.next_initialized_tick(-1001, false), Some(-1000));
    assert_eq!(registry.next_initialized_tick(i32::MIN, false), Some(-1000));
    assert_eq!(registry.next_initialized_tick(i32::MAX, false), None);
}

#[test]
fn next_initialized_tick_of_an_empty_registry_is_none() {
    let registry = TickRegistry::new(1).unwrap();
    assert_eq!(registry.next_initialized_tick(0, true), None);
    assert_eq!(registry.next_initialized_tick(0, false), None);
}

#[test]
fn crossing_flips_growth_outside() {
    let t = tick(-7, 9, 10, 20, [1, 2, 3]);
    let crossed = cross_tick(&t, 100, 50, &[10, 20, 30]);
    assert_eq!(crossed, tick(-7, 9, 90, 30, [9, 18, 27]));
    // growth wraps around
    let wrapped = cross_tick(&t, 5, 20, &[0, 2, u128::MAX]);
    assert_eq!(wrapped, tick(-7, 9, u128::MAX - 4, 0, [u128::MAX, 0, u128::MAX - 3]));
}

#[test]
fn crossing_twice_restores_tick_and_liquidity() {
    let t = tick(-7, 9, 10, 20, [1, 2, 3]);
    let once = cross_tick(&t, 5, 50, &[10, 0, 30]);
    assert_eq!(cross_tick(&once, 5, 50, &[10, 0, 30]), t);

    let up = liquidity_after_cross(1_000, 250, false).unwrap();
    assert_eq!(up, 1_250);
    assert_eq!(liquidity_after_cross(up, 250, true), Ok(1_000));
    let up = liquidity_after_cross(1_000, -250, false).unwrap();
    assert_eq!(up, 750);
    assert_eq!(liquidity_after_cross(up, -250, true), Ok(1_000));
}

#[test]
fn crossing_fails_where_liquidity_does_not_fit() {
    assert_eq!(liquidity_after_cross(10, 11, true), Err(PoolError::LiquidityOverflow));
    assert_eq!(liquidity_after_cross(10, -11, false), Err(PoolError::LiquidityOverflow));
    assert_eq!(liquidity_after_cross(u128::MAX, 1, false), Err(PoolError::LiquidityOverflow));
    assert_eq!(liquidity_after_cross(u128::MAX, -1, true), Err(PoolError::LiquidityOverflow));
    assert_eq!(liquidity_after_cross(1u128 << 127, i128::MIN, false), Ok(0));
}

#[test]
fn a_tick_that_comes_into_use_takes_the_totals_when_the_price_is_at_or_above_it() {
    let empty = Tick::new();
    let below = update_tick(&empty, -8, 0, 100, 200, &[1, 2, 3], 50, false).unwrap();
    assert_eq!(below, tick(50, 50, 100, 200, [1, 2, 3]));
    let at = update_tick(&empty, 0, 0, 100, 200, &[1, 2, 3], 50, true).unwrap();
    assert_eq!(at, tick(-50, 50, 100, 200, [1, 2, 3]));
    let above = update_tick(&empty, 8, 0, 100, 200, &[1, 2, 3], 50, true).unwrap();
    assert_eq!(above, tick(-50, 50, 0, 0, [0, 0, 0]));
}

#[test]
fn a_tick_in_use_keeps_its_growth_and_changes_its_liquidity() {
    let t = tick(30, 40, 7, 8, [9, 10, 11]);
    assert_eq!(
        update_tick(&t, 8, 0, 100, 200, &[1, 2, 3], 5, false),
        Ok(tick(35, 45, 7, 8, [9, 10, 11]))
    );
    assert_eq!(
        update_tick(&t, 8, 0, 100, 200, &[1, 2, 3], 5, true),
        Ok(tick(25, 45, 7, 8, [9, 10, 11]))
    );
    assert_eq!(
        update_tick(&t, 8, 0, 100, 200, &[1, 2, 3], -5, false),
        Ok(tick(25, 35, 7, 8, [9, 10, 11]))
    );
    assert_eq!(update_tick(&t, 8, 0, 100, 200, &[1, 2, 3], 0, false), Ok(t));
}

#[test]
fn a_tick_that_goes_out_of_use_is_cleared() {
    let t = tick(40, 40, 7, 8, [9, 10, 11]);
    assert_eq!(update_tick(&t, 8, 0, 100, 200, &[1, 2, 3], -40, false), Ok(Tick::new()));
    assert_eq!(
        update_tick(&t, 8, 0, 100, 200, &[1, 2, 3], -41, false),
        Err(PoolError::LiquidityOverflow)
    );
    let full = tick(i128::MAX, 5, 0, 0, [0, 0, 0]);
    assert_eq!(
        update_tick(&full, 8, 0, 100, 200, &[1, 2, 3], 1, false),
        Err(PoolError::LiquidityOverflow)
    );
}

#[test]
fn growth_inside_is_the_total_less_both_outsides() {
    // price inside the range
    assert_eq!(growth_inside(10, 20, -8, 8, 0, 100), 70);
    // price below the range: what is outside the lower tick lies above it
    assert_eq!(growth_inside(95, 20, -8, 8, -9, 100), 100 - 5 - 20);
    // price at or above the upper bound
    assert_eq!(growth_inside(10, 20, -8, 8, 8, 100), 100 - 10 - 80);
    assert_eq!(growth_inside(10, 20, -8, 8, 9, 100), 10);
    // wrap-around
    assert_eq!(growth_inside(10, 20, -8, 8, 0, 5), 5u128.wrapping_sub(30));
}

#[test]
fn a_tick_outside_its_array_is_out_of_bounds() {
    let mut array = TickArray::new(1, key(9), -704, 8).unwrap();
    assert_eq!(array.offset_of(-704, 8), Ok(0));
    assert_eq!(array.offset_of(-8, 8), Ok(87));
    assert_eq!(array.offset_of(-360, 8), Ok(43));
    assert_eq!(array.offset_of(0, 8), Err(PoolError::TickArrayIndexOutOfBounds));
    assert_eq!(array.offset_of(-712, 8), Err(PoolError::TickArrayIndexOutOfBounds));
    assert_eq!(array.offset_of(i32::MAX, 8), Err(PoolError::TickArrayIndexOutOfBounds));
    assert_eq!(array.offset_of(i32::MIN, 8), Err(PoolError::TickArrayIndexOutOfBounds));
    assert_eq!(array.offset_of(-703, 8), Err(PoolError::InvalidTickIndex));
    assert_eq!(array.get_tick(0, 8), Err(PoolError::TickArrayIndexOutOfBounds));
    assert_eq!(array.get_tick(-8, 8), Ok(Tick::new()));
    let t = tick(3, 3, 1, 1, [0, 0, 0]);
    assert_eq!(array.set_tick(-8, 8, t), Ok(()));
    assert_eq!(array.get_tick(-8, 8), Ok(t));
    assert_eq!(array.ticks[87], t);
    assert_eq!(array.set_tick(0, 8, t), Err(PoolError::TickArrayIndexOutOfBounds));
    assert_eq!(array.set_tick(-7, 8, t), Err(PoolError::InvalidTickIndex));
    assert_eq!(array.get_tick(-16, 8), Ok(Tick::new()));
}
