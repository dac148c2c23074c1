use pool::constants::{MAX_TICK_INDEX, MIN_TICK_INDEX};
use pool::instructions::initialize_pool::PoolKeys;
use pool::keys::Pubkey;
use pool::manager::TickRegistry;
use pool::math::fee_math::fee_at_valid_rate;
use pool::math::price_math::sqrt_price_near_tick;
use pool::math::tick_to_sqrt_price;
use pool::state::{Pool, Tick, WhirlpoolBumps};
use pool::{initialize_config, initialize_fee_tier, initialize_pool};

fn key(n: u8) -> Pubkey {
    Pubkey::new_from_array([n; 32])
}

fn pool() -> Pool {
    let config = initialize_config(255, key(20), key(21), key(22), 0).unwrap();
    let tier = initialize_fee_tier(254, key(10), 8, 3000).unwrap();
    let keys = PoolKeys {
        pool: key(9),
        config: key(10),
        fee_tier: key(11),
        token_mint_a: key(1),
        token_mint_b: key(2),
        token_vault_a: key(3),
        token_vault_b: key(4),
    };
    let price = tick_to_sqrt_price(-100).unwrap() + 5;
    initialize_pool(WhirlpoolBumps { pool_bump: 1 }, &keys, &config, &tier, 8, price).unwrap().0
}

#[test]
fn a_new_pool_is_well_formed() {
    assert!(pool().is_well_formed());
}

#[test]
fn a_pool_with_a_field_out_of_its_limits_is_not_well_formed() {
    let mut p = pool();
    p.fee_rate = 10_001;
    assert!(!p.is_well_formed());
    let mut p = pool();
    p.protocol_fee_rate = 10_001;
    assert!(!p.is_well_formed());
    let mut p = pool();
    p.tick_spacing = 0;
    assert!(!p.is_well_formed());
    let mut p = pool();
    p.tick_spacing = 101;
    assert!(!p.is_well_formed());
    let mut p = pool();
    p.token_mint_b = p.token_mint_a;
    assert!(!p.is_well_formed());
    let mut p = pool();
    p.sqrt_price = 1u128 << 64;
    p.tick_current_index = 0;
    assert!(!p.is_well_formed());
    let mut p = pool();
    p.sqrt_price = 0;
    p.tick_current_index = MIN_TICK_INDEX - 1;
    assert!(!p.is_well_formed());
}

#[test]
fn a_price_below_the_lowest_tick_stands_in_the_tick_below_it() {
    let mut p = pool();
    p.sqrt_price = 4_295_048_633;
    p.tick_current_index = MIN_TICK_INDEX - 1;
    assert!(p.is_well_formed());
    p.sqrt_price = 1;
    assert!(p.is_well_formed());
    p.tick_current_index = MIN_TICK_INDEX;
    assert!(!p.is_well_formed());
    p.tick_current_index = MIN_TICK_INDEX - 2;
    assert!(!p.is_well_formed());
}

#[test]
fn the_price_of_a_pool_stands_in_its_tick() {
    let mut p = pool();
    p.tick_current_index = -101;
    assert!(!p.is_well_formed());
    p.tick_current_index = -99;
    assert!(!p.is_well_formed());
    // on a tick the price stands in that tick and at the upper end of the one below
    p.sqrt_price = tick_to_sqrt_price(-100).unwrap();
    p.tick_current_index = -100;
    assert!(p.is_well_formed());
    p.tick_current_index = -101;
    assert!(p.is_well_formed());
    p.tick_current_index = -102;
    assert!(!p.is_well_formed());
    p.sqrt_price = tick_to_sqrt_price(MIN_TICK_INDEX).unwrap();
    p.tick_current_index = MIN_TICK_INDEX - 1;
    assert!(p.is_well_formed());
    p.tick_current_index = MIN_TICK_INDEX - 2;
    assert!(!p.is_well_formed());
    p.tick_current_index = i32::MAX;
    assert!(!p.is_well_formed());
}

#[test]
fn a_registry_is_well_formed_while_its_arrays_are() {
    let mut registry = TickRegistry::new(8).unwrap();
    assert!(registry.is_well_formed());
    registry.add_array(1, key(9), 0).unwrap();
    registry.add_array(1, key(9), -704).unwrap();
    registry.add_array(1, key(9), 704).unwrap();
    assert!(registry.is_well_formed());
    registry.arrays[1].ticks.push(Tick::new());
    assert!(!registry.is_well_formed());
    registry.arrays[1].ticks.pop();
    assert!(registry.is_well_formed());
    registry.arrays[2].start_tick_index = 705;
    assert!(!registry.is_well_formed());
    registry.arrays[2].start_tick_index = -704;
    assert!(!registry.is_well_formed());
    registry.arrays[2].start_tick_index = 1408;
    assert!(registry.is_well_formed());
    registry.tick_spacing = 0;
    assert!(!registry.is_well_formed());
    registry.tick_spacing = 101;
    assert!(!registry.is_well_formed());
}

#[test]
fn the_curve_goes_one_tick_beyond_its_bounds() {
    assert_eq!(sqrt_price_near_tick(0), 1u128 << 64);
    assert_eq!(sqrt_price_near_tick(-352), 18_124_937_672_840_825_101);
    assert_eq!(sqrt_price_near_tick(MIN_TICK_INDEX), 4_295_048_634);
    let lowest = 4_295_048_634u128;
    assert_eq!(
        sqrt_price_near_tick(MIN_TICK_INDEX - 1),
        lowest - lowest / 20000 + lowest / 266_666_667
    );
    let highest = tick_to_sqrt_price(MAX_TICK_INDEX).unwrap();
    assert_eq!(
        sqrt_price_near_tick(MAX_TICK_INDEX + 1),
        highest + highest / 20000 - highest / 800_000_000
    );
}

#[test]
fn the_fee_at_a_valid_rate_is_the_checked_fee() {
    assert_eq!(fee_at_valid_rate(100_000, 3000), 300);
    assert_eq!(fee_at_valid_rate(u64::MAX, 10_000), u64::MAX / 100);
    assert_eq!(fee_at_valid_rate(u64::MAX, 0), 0);
    assert_eq!(fee_at_valid_rate(333, 3000), 0);
    assert_eq!(fee_at_valid_rate(334, 3000), 1);
}
