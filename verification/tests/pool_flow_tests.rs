use pool::constants::MIN_TICK_INDEX;
use pool::errors::PoolError;
use pool::instructions::initialize_pool::PoolKeys;
use pool::keys::Pubkey;
use pool::manager::liquidity_manager::{
    decrease_liquidity, increase_liquidity, modify_liquidity, update_fees_and_rewards,
};
use pool::manager::position_manager::{close_position, collect_fees, open_position};
use pool::manager::swap_manager::swap;
use pool::manager::TickRegistry;
use pool::math::tick_to_sqrt_price;
use pool::state::{Pool, Position, WhirlpoolBumps};
use pool::{initialize_config, initialize_fee_tier, initialize_pool};

fn key(n: u8) -> Pubkey {
    Pubkey::new_from_array([n; 32])
}

fn keys() -> PoolKeys {
    PoolKeys {
        pool: key(9),
        config: key(10),
        fee_tier: key(11),
        token_mint_a: key(1),
        token_mint_b: key(2),
        token_vault_a: key(3),
        token_vault_b: key(4),
    }
}

fn new_pool(tick: i32, fee_rate: u16, protocol_fee_rate: u16) -> (Pool, TickRegistry) {
    let config = initialize_config(255, key(20), key(21), key(22), protocol_fee_rate).unwrap();
    let tier = initialize_fee_tier(254, key(10), 8, fee_rate).unwrap();
    let price = tick_to_sqrt_price(tick).unwrap();
    let (pool, _) =
        initialize_pool(WhirlpoolBumps { pool_bump: 7 }, &keys(), &config, &tier, 8, price).unwrap();
    let registry = TickRegistry::new(8).unwrap();
    (pool, registry)
}

fn lowest_price() -> u128 {
    tick_to_sqrt_price(MIN_TICK_INDEX).unwrap()
}

#[test]
fn a_new_pool_stands_in_the_tick_of_its_price() {
    let (pool, _) = new_pool(-352, 3000, 0);
    assert_eq!(pool.tick_current_index, -352);
    assert_eq!(pool.sqrt_price, 18_124_937_672_840_825_101);
    assert_eq!(pool.liquidity, 0);
    assert_eq!(pool.fee_rate, 3000);
    assert_eq!(pool.protocol_fee_rate, 0);
    assert_eq!(pool.tick_spacing, 8);
    assert_eq!(pool.fee_growth_global_a, 0);
    assert_eq!(pool.fee_growth_global_b, 0);
    assert_eq!(pool.bump, 7);
}

#[test]
fn round_trip_charges_the_fee_before_the_price_moves() {
    let (mut pool, mut registry) = new_pool(-352, 3000, 0);
    registry.add_array(1, key(9), -4928).unwrap();
    registry.add_array(2, key(9), -704).unwrap();
    let mut position = open_position(1, key(9), key(30), -4400, -8, 8).unwrap();

    let liquidity_before_open = pool.liquidity;
    let deposit = increase_liquidity(
        &mut pool,
        &mut position,
        &mut registry,
        1_000_000,
        u64::MAX,
        u64::MAX,
        100,
    )
    .unwrap();
    assert_eq!(deposit.amount_a, 17_355);
    assert_eq!(deposit.amount_b, 180_028);
    assert_eq!(deposit.liquidity_before, 0);
    assert_eq!(deposit.liquidity_after, 1_000_000);
    assert_eq!(pool.liquidity, 1_000_000);
    assert_eq!(position.liquidity, 1_000_000);

    let result = swap(&mut pool, &mut registry, 100_000, lowest_price(), true, true, 100).unwrap();
    assert_eq!(result.fee_amount, 300);
    assert_eq!(result.amount_in, 100_000);
    assert_eq!(result.amount_out, 87_663);
    assert_eq!(result.protocol_fee, 0);
    assert!(result.a_to_b);
    assert_eq!(result.sqrt_price, 16_507_833_050_586_021_095);
    assert_eq!(result.tick_index, -2222);
    assert_eq!(result.fee_growth_accrued, 5_534_023_222_112_865);
    assert_eq!(pool.sqrt_price, 16_507_833_050_586_021_095);
    assert_eq!(pool.tick_current_index, -2222);
    assert_eq!(pool.fee_growth_global_a, 5_534_023_222_112_865);
    assert_eq!(pool.fee_growth_global_b, 0);
    assert_eq!(pool.liquidity, 1_000_000);

    update_fees_and_rewards(&mut pool, &mut position, &registry, 100).unwrap();
    assert_eq!(position.fee_owed_a, 299);
    assert_eq!(position.fee_owed_b, 0);
    assert!(position.fee_owed_a <= result.fee_amount);
    assert_eq!(collect_fees(&mut position), (299, 0));
    assert_eq!(collect_fees(&mut position), (0, 0));

    let withdrawal =
        decrease_liquidity(&mut pool, &mut position, &mut registry, 1_000_000, 0, 0, 100).unwrap();
    assert_eq!(withdrawal.amount_a, 117_053);
    assert_eq!(withdrawal.amount_b, 92_363);
    // the pool pays out no more than it took in
    assert!(withdrawal.amount_a <= deposit.amount_a + result.amount_in);
    assert!(withdrawal.amount_b + result.amount_out <= deposit.amount_b);
    assert_eq!(pool.liquidity, liquidity_before_open);
    assert_eq!(position.liquidity, 0);
    assert_eq!(close_position(&position), Ok(()));
    assert!(!registry.get_tick(-4400).unwrap().initialized);
    assert!(!registry.get_tick(-8).unwrap().initialized);
}

#[test]
fn a_swap_that_leaves_the_range_crosses_the_tick() {
    let (mut pool, mut registry) = new_pool(-352, 3000, 2500);
    registry.add_array(2, key(9), -704).unwrap();
    let mut position = open_position(1, key(9), key(30), -528, -176, 8).unwrap();
    let deposit = modify_liquidity(&mut pool, &mut position, &mut registry, 1_000_000, 5).unwrap();
    assert_eq!((deposit.amount_a, deposit.amount_b), (8_917, 8_609));

    let limit = tick_to_sqrt_price(-1000).unwrap();
    let down = swap(&mut pool, &mut registry, 100_000, limit, true, true, 5).unwrap();
    assert_eq!(down.amount_in, 9_022);
    assert_eq!(down.amount_out, 8_608);
    assert_eq!(down.fee_amount, 26);
    assert_eq!(down.protocol_fee, 6);
    assert_eq!(down.tick_index, -1000);
    assert_eq!(down.sqrt_price, limit);
    assert_eq!(pool.liquidity, 0);
    assert_eq!(pool.protocol_fee_owed_a, 6);
    assert_eq!(pool.fee_growth_global_a, 368_934_881_474_191);
    let crossed = registry.get_tick(-528).unwrap();
    assert_eq!(crossed.fee_growth_outside_a, 368_934_881_474_191);
    assert_eq!(crossed.liquidity_net, 1_000_000);
    assert_eq!(crossed.liquidity_gross, 1_000_000);

    // and back up through the same tick
    let limit = tick_to_sqrt_price(-352).unwrap();
    let up = swap(&mut pool, &mut registry, 50_000, limit, true, false, 5).unwrap();
    assert_eq!(up.amount_in, 8_634);
    assert_eq!(up.amount_out, 8_995);
    assert_eq!(up.fee_amount, 25);
    assert_eq!(up.protocol_fee, 6);
    assert_eq!(up.tick_index, -352);
    assert_eq!(up.sqrt_price, limit);
    assert!(!up.a_to_b);
    assert_eq!(pool.liquidity, 1_000_000);
    assert_eq!(pool.protocol_fee_owed_b, 6);
    assert_eq!(pool.fee_growth_global_b, 350_488_137_400_481);
    assert_eq!(pool.fee_growth_global_a, 368_934_881_474_191);
    let crossed = registry.get_tick(-528).unwrap();
    assert_eq!(crossed.fee_growth_outside_a, 0);
    assert_eq!(crossed.fee_growth_outside_b, 0);
    assert_eq!(crossed.liquidity_net, 1_000_000);
}

#[test]
fn a_position_left_below_its_range_withdraws_asset_a_only() {
    let (mut pool, mut registry) = new_pool(-352, 3000, 0);
    registry.add_array(2, key(9), -704).unwrap();
    let mut position = open_position(1, key(9), key(30), -528, -176, 8).unwrap();
    modify_liquidity(&mut pool, &mut position, &mut registry, 1_000_000, 5).unwrap();
    let limit = tick_to_sqrt_price(-1000).unwrap();
    swap(&mut pool, &mut registry, 100_000, limit, true, true, 5).unwrap();
    assert_eq!(pool.liquidity, 0);

    let out = modify_liquidity(&mut pool, &mut position, &mut registry, -1_000_000, 5).unwrap();
    assert_eq!((out.amount_a, out.amount_b), (17_911, 0));
    assert_eq!(pool.liquidity, 0);
    assert_eq!(position.fee_owed_a, 25);
    assert_eq!(close_position(&position), Err(PoolError::ClosePositionNotEmpty));
    assert_eq!(collect_fees(&mut position), (25, 0));
    assert_eq!(close_position(&position), Ok(()));
}

#[test]
fn a_swap_of_nothing_is_refused() {
    let (mut pool, mut registry) = new_pool(-352, 3000, 0);
    assert_eq!(
        swap(&mut pool, &mut registry, 0, lowest_price(), true, true, 0),
        Err(PoolError::ZeroTradableAmount)
    );
}

#[test]
fn a_swap_without_liquidity_trades_nothing_and_is_refused() {
    let (mut pool, mut registry) = new_pool(-352, 3000, 0);
    let before = pool;
    assert_eq!(
        swap(&mut pool, &mut registry, 1_000, lowest_price(), true, true, 0),
        Err(PoolError::ZeroTradableAmount)
    );
    assert_eq!(pool, before);
}

#[test]
fn a_limit_on_the_wrong_side_is_refused() {
    let (mut pool, mut registry) = new_pool(-352, 3000, 0);
    let price = pool.sqrt_price;
    assert_eq!(
        swap(&mut pool, &mut registry, 1_000, price, true, true, 0),
        Err(PoolError::InvalidSqrtPriceLimitDirection)
    );
    assert_eq!(
        swap(&mut pool, &mut registry, 1_000, price + 1, true, true, 0),
        Err(PoolError::InvalidSqrtPriceLimitDirection)
    );
    assert_eq!(
        swap(&mut pool, &mut registry, 1_000, price - 1, true, false, 0),
        Err(PoolError::InvalidSqrtPriceLimitDirection)
    );
}

#[test]
fn a_limit_out_of_bounds_is_refused() {
    let (mut pool, mut registry) = new_pool(-352, 3000, 0);
    assert_eq!(
        swap(&mut pool, &mut registry, 1_000, 0, true, true, 0),
        Err(PoolError::SqrtPriceOutOfBounds)
    );
    assert_eq!(
        swap(&mut pool, &mut registry, 1_000, 1u128 << 64, true, false, 0),
        Err(PoolError::SqrtPriceOutOfBounds)
    );
    assert_eq!(
        swap(&mut pool, &mut registry, 1_000, u128::MAX, true, false, 0),
        Err(PoolError::SqrtPriceOutOfBounds)
    );
}

#[test]
fn every_price_within_the_bounds_is_a_limit() {
    let (mut pool, mut registry) = new_pool(-352, 3000, 0);
    registry.add_array(2, key(9), -704).unwrap();
    let mut position = open_position(1, key(9), key(30), -528, -176, 8).unwrap();
    modify_liquidity(&mut pool, &mut position, &mut registry, 1_000_000, 5).unwrap();
    // down to the smallest price there is, below the lowest tick
    let down = swap(&mut pool, &mut registry, 100_000, 1, true, true, 5).unwrap();
    assert_eq!(down.amount_in, 9_022);
    assert_eq!(down.amount_out, 8_608);
    assert_eq!(down.sqrt_price, 1);
    assert_eq!(down.tick_index, MIN_TICK_INDEX - 1);
    assert_eq!(pool.sqrt_price, 1);
    assert_eq!(pool.tick_current_index, MIN_TICK_INDEX - 1);
    assert_eq!(pool.liquidity, 0);
    assert!(pool.is_well_formed());
    // and back up to the largest
    let up =
        swap(&mut pool, &mut registry, 1_000_000, 18_446_744_073_709_551_615, true, false, 5)
            .unwrap();
    assert_eq!(up.sqrt_price, 18_446_744_073_709_551_615);
    assert_eq!(up.tick_index, -1);
    assert_eq!(pool.tick_current_index, -1);
    assert_eq!(pool.liquidity, 0);
    assert!(up.amount_in > 0);
    assert!(pool.is_well_formed());
}

#[test]
fn a_pool_may_start_at_any_price_within_the_bounds() {
    let config = initialize_config(255, key(20), key(21), key(22), 0).unwrap();
    let tier = initialize_fee_tier(254, key(10), 1, 3000).unwrap();
    for (price, tick) in [
        (1u128, MIN_TICK_INDEX - 1),
        (2, MIN_TICK_INDEX - 1),
        (4_295_048_633, MIN_TICK_INDEX - 1),
        (4_295_048_634, MIN_TICK_INDEX),
        (18_446_744_073_709_551_615, -1),
    ] {
        let (pool, event) =
            initialize_pool(WhirlpoolBumps { pool_bump: 7 }, &keys(), &config, &tier, 1, price)
                .unwrap();
        assert_eq!(pool.sqrt_price, price);
        assert_eq!(pool.tick_current_index, tick);
        assert_eq!(pool.liquidity, 0);
        assert_eq!(event.initial_sqrt_price, price);
        assert!(pool.is_well_formed());
    }
}

#[test]
fn a_failed_change_of_liquidity_changes_nothing() {
    let (mut pool, mut registry) = new_pool(-352, 3000, 0);
    registry.add_array(2, key(9), -704).unwrap();
    let mut position = open_position(1, key(9), key(30), -528, -176, 8).unwrap();
    let (pool0, position0): (Pool, Position) = (pool, position);
    assert_eq!(
        modify_liquidity(&mut pool, &mut position, &mut registry, 0, 5),
        Err(PoolError::LiquidityZero)
    );
    assert_eq!(
        modify_liquidity(&mut pool, &mut position, &mut registry, -1, 5),
        Err(PoolError::LiquidityOverflow)
    );
    assert_eq!(
        increase_liquidity(&mut pool, &mut position, &mut registry, 1_000_000, 8_916, u64::MAX, 5),
        Err(PoolError::TokenMaxExceeded)
    );
    assert_eq!(
        increase_liquidity(&mut pool, &mut position, &mut registry, 0, 1, 1, 5),
        Err(PoolError::LiquidityZero)
    );
    assert_eq!(
        increase_liquidity(&mut pool, &mut position, &mut registry, u128::MAX, 1, 1, 5),
        Err(PoolError::LiquidityTooHigh)
    );
    assert_eq!(pool, pool0);
    assert_eq!(position, position0);
    assert!(!registry.get_tick(-528).unwrap().initialized);
}

#[test]
fn a_position_over_missing_arrays_cannot_take_liquidity() {
    let (mut pool, mut registry) = new_pool(-352, 3000, 0);
    let mut position = open_position(1, key(9), key(30), -528, -176, 8).unwrap();
    assert_eq!(
        modify_liquidity(&mut pool, &mut position, &mut registry, 10, 5),
        Err(PoolError::TickArrayIndexOutOfBounds)
    );
}

#[test]
fn a_withdrawal_below_its_minimum_is_refused() {
    let (mut pool, mut registry) = new_pool(-352, 3000, 0);
    registry.add_array(2, key(9), -704).unwrap();
    let mut position = open_position(1, key(9), key(30), -528, -176, 8).unwrap();
    modify_liquidity(&mut pool, &mut position, &mut registry, 1_000_000, 5).unwrap();
    assert_eq!(
        decrease_liquidity(&mut pool, &mut position, &mut registry, 1_000_000, 8_917, 0, 5),
        Err(PoolError::TokenMinSubceeded)
    );
    let out =
        decrease_liquidity(&mut pool, &mut position, &mut registry, 1_000_000, 8_916, 8_608, 5)
            .unwrap();
    assert_eq!((out.amount_a, out.amount_b), (8_916, 8_608));
    assert_eq!(pool.liquidity, 0);
}

#[test]
fn deposit_then_withdrawal_restores_pool_and_ticks() {
    let (mut pool, mut registry) = new_pool(-352, 3000, 0);
    registry.add_array(2, key(9), -704).unwrap();
    let mut first = open_position(1, key(9), key(30), -528, -176, 8).unwrap();
    modify_liquidity(&mut pool, &mut first, &mut registry, 500, 5).unwrap();
    let lower = registry.get_tick(-528).unwrap();
    let upper = registry.get_tick(-176).unwrap();
    let liquidity = pool.liquidity;

    let mut second = open_position(1, key(9), key(31), -528, -176, 8).unwrap();
    modify_liquidity(&mut pool, &mut second, &mut registry, 777, 5).unwrap();
    assert_eq!(pool.liquidity, liquidity + 777);
    assert_eq!(registry.get_tick(-528).unwrap().liquidity_net, 1_277);
    assert_eq!(registry.get_tick(-176).unwrap().liquidity_net, -1_277);
    modify_liquidity(&mut pool, &mut second, &mut registry, -777, 5).unwrap();
    assert_eq!(pool.liquidity, liquidity);
    assert_eq!(registry.get_tick(-528).unwrap(), lower);
    assert_eq!(registry.get_tick(-176).unwrap(), upper);
    assert_eq!(second.liquidity, 0);
    assert_eq!(second.fee_owed_a, 0);
    assert_eq!(second.fee_owed_b, 0);
}

#[test]
fn fee_growth_never_falls_across_swaps() {
    let (mut pool, mut registry) = new_pool(-352, 3000, 1000);
    registry.add_array(1, key(9), -4928).unwrap();
    registry.add_array(2, key(9), -704).unwrap();
    let mut wide = open_position(1, key(9), key(30), -4400, -8, 8).unwrap();
    let mut narrow = open_position(1, key(9), key(31), -528, -176, 8).unwrap();
    modify_liquidity(&mut pool, &mut wide, &mut registry, 1_000_000, 1).unwrap();
    modify_liquidity(&mut pool, &mut narrow, &mut registry, 5_000_000, 1).unwrap();

    let low = tick_to_sqrt_price(-4000).unwrap();
    let high = tick_to_sqrt_price(-16).unwrap();
    let mut growth_a = pool.fee_growth_global_a;
    let mut growth_b = pool.fee_growth_global_b;
    let mut time = 1;
    for (amount, a_to_b, exact_in) in [
        (50_000u64, true, true),
        (30_000, false, true),
        (70_000, true, false),
        (1, true, true),
        (400_000, false, false),
        (400_000, true, true),
        (1_000, false, true),
    ] {
        time += 10;
        let limit = if a_to_b { low } else { high };
        let before_a = pool.fee_growth_global_a;
        let before_b = pool.fee_growth_global_b;
        if let Ok(result) = swap(&mut pool, &mut registry, amount, limit, exact_in, a_to_b, time) {
            if a_to_b {
                assert_eq!(pool.fee_growth_global_a - before_a, result.fee_growth_accrued);
                assert_eq!(pool.fee_growth_global_b, before_b);
            } else {
                assert_eq!(pool.fee_growth_global_b - before_b, result.fee_growth_accrued);
                assert_eq!(pool.fee_growth_global_a, before_a);
            }
            if exact_in {
                assert!(result.amount_in <= amount);
            } else {
                assert!(result.amount_out <= amount);
            }
            assert!(result.fee_amount <= result.amount_in);
        } else {
            assert_eq!(pool.fee_growth_global_a, before_a);
            assert_eq!(pool.fee_growth_global_b, before_b);
        }
        assert!(pool.fee_growth_global_a >= growth_a);
        assert!(pool.fee_growth_global_b >= growth_b);
        assert!(pool.is_well_formed());
        assert!(registry.is_well_formed());
        growth_a = pool.fee_growth_global_a;
        growth_b = pool.fee_growth_global_b;
    }
    assert!(growth_a > 0);
    assert!(growth_b > 0);
    assert!(pool.protocol_fee_owed_a > 0);
    assert!(pool.protocol_fee_owed_b > 0);
}

#[test]
fn what_positions_earn_is_what_the_swaps_paid_in_fees() {
    let (mut pool, mut registry) = new_pool(-352, 3000, 0);
    registry.add_array(2, key(9), -704).unwrap();
    let mut first = open_position(1, key(9), key(30), -528, -176, 8).unwrap();
    let mut second = open_position(1, key(9), key(31), -528, -176, 8).unwrap();
    modify_liquidity(&mut pool, &mut first, &mut registry, 3_000_000, 1).unwrap();
    modify_liquidity(&mut pool, &mut second, &mut registry, 1_000_000, 1).unwrap();
    let limit = tick_to_sqrt_price(-500).unwrap();
    let result = swap(&mut pool, &mut registry, 10_000, limit, true, true, 2).unwrap();
    assert_eq!(result.fee_amount, 30);
    update_fees_and_rewards(&mut pool, &mut first, &registry, 2).unwrap();
    update_fees_and_rewards(&mut pool, &mut second, &registry, 2).unwrap();
    // three quarters and one quarter of the fee, each rounded down
    assert_eq!(first.fee_owed_a, 22);
    assert_eq!(second.fee_owed_a, 7);
    assert!(first.fee_owed_a + second.fee_owed_a <= result.fee_amount);
    // settled once more, nothing is added
    update_fees_and_rewards(&mut pool, &mut first, &registry, 2).unwrap();
    assert_eq!(first.fee_owed_a, 22);
}

fn in_range(position: &Position, tick: i32) -> bool {
    position.tick_lower_index <= tick && tick < position.tick_upper_index
}

fn assert_accounted(pool: &Pool, registry: &TickRegistry, positions: &[Position]) {
    let active: u128 = positions
        .iter()
        .filter(|p| in_range(p, pool.tick_current_index))
        .map(|p| p.liquidity)
        .sum();
    assert_eq!(pool.liquidity, active);
    for array in registry.arrays.iter() {
        for (k, tick) in array.ticks.iter().enumerate() {
            let index = array.start_tick_index + (k as i32) * (registry.tick_spacing as i32);
            let lower: u128 =
                positions.iter().filter(|p| p.tick_lower_index == index).map(|p| p.liquidity).sum();
            let upper: u128 =
                positions.iter().filter(|p| p.tick_upper_index == index).map(|p| p.liquidity).sum();
            assert_eq!(tick.liquidity_gross, lower + upper);
            assert_eq!(tick.liquidity_net, lower as i128 - upper as i128);
            assert_eq!(tick.initialized, lower + upper > 0);
        }
    }
}

#[test]
fn pool_liquidity_is_the_liquidity_of_the_positions_in_range() {
    let (mut pool, mut registry) = new_pool(-352, 3000, 1000);
    registry.add_array(1, key(9), -1408).unwrap();
    registry.add_array(2, key(9), -704).unwrap();
    let mut positions = vec![
        open_position(1, key(9), key(30), -528, -176, 8).unwrap(),
        open_position(1, key(9), key(31), -1000, -400, 8).unwrap(),
        open_position(1, key(9), key(32), -360, -344, 8).unwrap(),
        open_position(1, key(9), key(33), -176, -8, 8).unwrap(),
    ];
    assert_accounted(&pool, &registry, &positions);
    for (i, amount) in [(0usize, 1_000_000i128), (1, 2_000_000), (2, 500_000), (3, 70_000)] {
        modify_liquidity(&mut pool, &mut positions[i], &mut registry, amount, 1).unwrap();
        assert_accounted(&pool, &registry, &positions);
    }
    assert_eq!(pool.liquidity, 1_500_000);
    let low = tick_to_sqrt_price(-1200).unwrap();
    let high = tick_to_sqrt_price(-16).unwrap();
    for (amount, a_to_b, exact_in) in [
        (3_000u64, true, true),
        (40_000, true, true),
        (10_000, false, true),
        (500_000, true, false),
        (5_000_000, true, true),
        (5_000_000, false, true),
        (20_000, true, false),
    ] {
        let limit = if a_to_b { low } else { high };
        let _ = swap(&mut pool, &mut registry, amount, limit, exact_in, a_to_b, 2);
        assert_accounted(&pool, &registry, &positions);
        assert!(pool.is_well_formed());
    }
    modify_liquidity(&mut pool, &mut positions[1], &mut registry, -2_000_000, 3).unwrap();
    assert_accounted(&pool, &registry, &positions);
    modify_liquidity(&mut pool, &mut positions[0], &mut registry, -400_000, 3).unwrap();
    assert_accounted(&pool, &registry, &positions);
    let closed = positions.remove(1);
    assert_eq!(closed.liquidity, 0);
    assert_accounted(&pool, &registry, &positions);
}
