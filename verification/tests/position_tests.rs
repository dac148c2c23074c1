use pool::errors::PoolError;
use pool::keys::Pubkey;
use pool::events::{
    fees_collected_event, position_closed_event, position_created_event, position_lock_event,
    position_range_reset_event, reward_collected_event,
};
use pool::manager::position_manager::{
    close_position, collect_fees, collect_reward, is_position_empty, lock_position,
    open_position, reset_position_range, settle_owed, settle_position, unlock_position,
};
use pool::manager::liquidity_manager::{decrease_liquidity, modify_liquidity};
use pool::manager::TickRegistry;
use pool::state::{LockType, Position, PositionRewardInfo, WhirlpoolBumps};
use pool::instructions::initialize_pool::PoolKeys;
use pool::math::tick_to_sqrt_price;
use pool::{initialize_config, initialize_fee_tier, initialize_pool};

const ONE: u128 = 1u128 << 64;

fn key(n: u8) -> Pubkey {
    Pubkey::new_from_array([n; 32])
}

fn position() -> Position {
    open_position(1, key(9), key(30), -64, 64, 8).unwrap()
}

#[test]
fn a_position_opens_empty_over_its_range() {
    let p = position();
    assert_eq!(p.bump, 1);
    assert_eq!(p.pool, key(9));
    assert_eq!(p.position_mint, key(30));
    assert_eq!((p.tick_lower_index, p.tick_upper_index), (-64, 64));
    assert_eq!(p.liquidity, 0);
    assert_eq!((p.fee_owed_a, p.fee_owed_b), (0, 0));
    assert_eq!((p.fee_growth_checkpoint_a, p.fee_growth_checkpoint_b), (0, 0));
    assert_eq!(
        p.reward_infos,
        [PositionRewardInfo { growth_inside_checkpoint: 0, amount_owed: 0 }; 3]
    );
    assert_eq!(p.lock_type, LockType::Unlocked);
    assert!(is_position_empty(&p));
}

#[test]
fn a_range_of_one_tick_is_refused_as_the_same_range() {
    assert_eq!(
        open_position(1, key(9), key(30), 64, 64, 8),
        Err(PoolError::SameTickRangeNotAllowed)
    );
    assert_eq!(
        open_position(1, key(9), key(30), 0, 0, 8),
        Err(PoolError::SameTickRangeNotAllowed)
    );
    // even where the tick itself is unusable
    assert_eq!(
        open_position(1, key(9), key(30), 3, 3, 8),
        Err(PoolError::SameTickRangeNotAllowed)
    );
    assert_eq!(
        open_position(1, key(9), key(30), 5, 5, 0),
        Err(PoolError::SameTickRangeNotAllowed)
    );
}

#[test]
fn an_inverted_or_unusable_range_is_refused_as_an_invalid_tick() {
    assert_eq!(open_position(1, key(9), key(30), 64, -64, 8), Err(PoolError::InvalidTickIndex));
    assert_eq!(open_position(1, key(9), key(30), -63, 64, 8), Err(PoolError::InvalidTickIndex));
    assert_eq!(open_position(1, key(9), key(30), -64, 65, 8), Err(PoolError::InvalidTickIndex));
    assert_eq!(
        open_position(1, key(9), key(30), -443_640, 64, 8),
        Err(PoolError::InvalidTickIndex)
    );
    assert_eq!(
        open_position(1, key(9), key(30), -64, 443_640, 8),
        Err(PoolError::InvalidTickIndex)
    );
    assert_eq!(open_position(1, key(9), key(30), -64, 64, 0), Err(PoolError::InvalidTickSpacing));
}

#[test]
fn a_position_with_liquidity_cannot_be_closed() {
    let mut p = position();
    p.liquidity = 1;
    assert_eq!(close_position(&p), Err(PoolError::ClosePositionNotEmpty));
    p.liquidity = u128::MAX;
    assert_eq!(close_position(&p), Err(PoolError::ClosePositionNotEmpty));
}

#[test]
fn a_position_that_is_owed_something_cannot_be_closed() {
    let mut p = position();
    p.fee_owed_a = 1;
    assert_eq!(close_position(&p), Err(PoolError::ClosePositionNotEmpty));
    let mut p = position();
    p.fee_owed_b = 1;
    assert_eq!(close_position(&p), Err(PoolError::ClosePositionNotEmpty));
    for i in 0..3 {
        let mut p = position();
        p.reward_infos[i].amount_owed = 1;
        assert_eq!(close_position(&p), Err(PoolError::ClosePositionNotEmpty));
        assert!(!is_position_empty(&p));
    }
}

#[test]
fn an_empty_unlocked_position_can_be_closed() {
    assert_eq!(close_position(&position()), Ok(()));
    let mut p = position();
    p.fee_growth_checkpoint_a = 55;
    assert_eq!(close_position(&p), Ok(()));
}

#[test]
fn an_empty_locked_position_cannot_be_closed() {
    let mut p = position();
    p.lock_type = LockType::Permanent;
    assert_eq!(close_position(&p), Err(PoolError::PositionAlreadyLocked));
    p.lock_type = LockType::Temporary;
    assert_eq!(close_position(&p), Err(PoolError::PositionAlreadyLocked));
}

#[test]
fn owed_is_liquidity_times_growth_since_the_checkpoint() {
    // growth of 1.5 on liquidity 10
    assert_eq!(settle_owed(3, 10, 5 * ONE / 2, ONE), Ok(18));
    // growth of a third, rounded down
    assert_eq!(settle_owed(0, 10, ONE / 3, 0), Ok(3));
    assert_eq!(settle_owed(7, 0, u128::MAX, 0), Ok(7));
    // the checkpoint above the growth: the accumulator has wrapped around
    assert_eq!(settle_owed(0, 4, ONE / 2 - 1, u128::MAX), Ok(2));
}

#[test]
fn owed_fails_where_it_does_not_fit() {
    assert_eq!(settle_owed(0, 1u128 << 64, 1u128 << 64, 0), Err(PoolError::LiquidityOverflow));
    assert_eq!(settle_owed(u64::MAX, 1, ONE, 0), Err(PoolError::LiquidityOverflow));
    assert_eq!(settle_owed(u64::MAX - 1, 1, ONE, 0), Ok(u64::MAX));
}

#[test]
fn settling_twice_adds_nothing_the_second_time() {
    let mut p = position();
    p.liquidity = 1_000;
    let once = settle_position(&p, 3 * ONE, ONE / 2, &[ONE, 0, 7 * ONE]).unwrap();
    assert_eq!((once.fee_owed_a, once.fee_owed_b), (3_000, 500));
    assert_eq!(once.reward_infos[0].amount_owed, 1_000);
    assert_eq!(once.reward_infos[1].amount_owed, 0);
    assert_eq!(once.reward_infos[2].amount_owed, 7_000);
    assert_eq!(once.fee_growth_checkpoint_a, 3 * ONE);
    assert_eq!(once.reward_infos[2].growth_inside_checkpoint, 7 * ONE);
    let twice = settle_position(&once, 3 * ONE, ONE / 2, &[ONE, 0, 7 * ONE]).unwrap();
    assert_eq!(twice, once);
}

#[test]
fn collecting_a_reward_twice_yields_nothing_the_second_time() {
    let mut p = position();
    p.reward_infos[1].amount_owed = 42;
    p.reward_infos[1].growth_inside_checkpoint = 9;
    p.reward_infos[2].amount_owed = 5;
    assert_eq!(collect_reward(&mut p, 1), Ok(42));
    assert_eq!(collect_reward(&mut p, 1), Ok(0));
    assert_eq!(p.reward_infos[1].growth_inside_checkpoint, 9);
    assert_eq!(p.reward_infos[2].amount_owed, 5);
    assert_eq!(collect_reward(&mut p, 0), Ok(0));
    assert_eq!(collect_reward(&mut p, 2), Ok(5));
    assert_eq!(collect_reward(&mut p, 2), Ok(0));
}

#[test]
fn a_reward_index_that_names_no_stream_is_refused() {
    let mut p = position();
    p.reward_infos[0].amount_owed = 1;
    let before = p;
    assert_eq!(collect_reward(&mut p, 3), Err(PoolError::InvalidRewardIndex));
    assert_eq!(collect_reward(&mut p, usize::MAX), Err(PoolError::InvalidRewardIndex));
    assert_eq!(p, before);
}

#[test]
fn collecting_fees_leaves_nothing_owed() {
    let mut p = position();
    p.fee_owed_a = 11;
    p.fee_owed_b = 22;
    assert_eq!(collect_fees(&mut p), (11, 22));
    assert_eq!((p.fee_owed_a, p.fee_owed_b), (0, 0));
    assert_eq!(collect_fees(&mut p), (0, 0));
}

#[test]
fn locking_needs_liquidity_and_a_kind_of_lock() {
    let mut p = position();
    assert_eq!(lock_position(&mut p, LockType::Permanent), Err(PoolError::PositionNotLockable));
    p.liquidity = 5;
    assert_eq!(lock_position(&mut p, LockType::Unlocked), Err(PoolError::PositionNotLockable));
    assert_eq!(p.lock_type, LockType::Unlocked);
    assert_eq!(lock_position(&mut p, LockType::Temporary), Ok(()));
    assert_eq!(p.lock_type, LockType::Temporary);
    assert_eq!(lock_position(&mut p, LockType::Permanent), Err(PoolError::PositionAlreadyLocked));
    assert_eq!(p.lock_type, LockType::Temporary);
}

#[test]
fn a_temporary_lock_lifts_when_its_condition_is_met() {
    let mut p = position();
    p.liquidity = 5;
    lock_position(&mut p, LockType::Temporary).unwrap();
    assert!(!unlock_position(&mut p, false));
    assert_eq!(p.lock_type, LockType::Temporary);
    assert!(unlock_position(&mut p, true));
    assert_eq!(p.lock_type, LockType::Unlocked);
    assert!(unlock_position(&mut p, false));
}

#[test]
fn a_permanent_lock_never_lifts() {
    let mut p = position();
    p.liquidity = 5;
    lock_position(&mut p, LockType::Permanent).unwrap();
    assert!(!unlock_position(&mut p, true));
    assert_eq!(p.lock_type, LockType::Permanent);
}

#[test]
fn a_locked_position_gives_no_liquidity_back() {
    let config = initialize_config(255, key(20), key(21), key(22), 0).unwrap();
    let tier = initialize_fee_tier(254, key(10), 8, 3000).unwrap();
    let keys = PoolKeys {
        pool: key(9),
        config: key(10),
        fee_tier: key(11),
        token_mint_a: key(1),
        token_mint_b: key(2),
        token_vault_a: key(3),
        token_vault_b: key(4),
    };
    let price = tick_to_sqrt_price(-352).unwrap();
    let (mut pool, _) =
        initialize_pool(WhirlpoolBumps { pool_bump: 1 }, &keys, &config, &tier, 8, price).unwrap();
    let mut registry = TickRegistry::new(8).unwrap();
    registry.add_array(2, key(9), -704).unwrap();
    let mut p = open_position(1, key(9), key(30), -528, -176, 8).unwrap();
    modify_liquidity(&mut pool, &mut p, &mut registry, 1_000, 5).unwrap();
    lock_position(&mut p, LockType::Permanent).unwrap();
    assert_eq!(
        modify_liquidity(&mut pool, &mut p, &mut registry, -1, 5),
        Err(PoolError::PositionAlreadyLocked)
    );
    assert_eq!(
        decrease_liquidity(&mut pool, &mut p, &mut registry, 1, 0, 0, 5),
        Err(PoolError::PositionAlreadyLocked)
    );
    // adding is still allowed
    assert!(modify_liquidity(&mut pool, &mut p, &mut registry, 1, 5).is_ok());
    assert_eq!(p.liquidity, 1_001);
    assert_eq!(pool.liquidity, 1_001);
}

#[test]
fn lock_codes_are_zero_one_two() {
    assert_eq!(LockType::Unlocked.code(), 0);
    assert_eq!(LockType::Temporary.code(), 1);
    assert_eq!(LockType::Permanent.code(), 2);
    assert_eq!(LockType::default(), LockType::Unlocked);
}

#[test]
fn an_empty_position_moves_to_a_new_range() {
    let mut p = position();
    p.fee_growth_checkpoint_a = 77;
    assert_eq!(reset_position_range(&mut p, -128, 0, 8), Ok(()));
    assert_eq!(p, open_position(1, key(9), key(30), -128, 0, 8).unwrap());
    assert_eq!(
        reset_position_range(&mut p, 8, 8, 8),
        Err(PoolError::SameTickRangeNotAllowed)
    );
    assert_eq!(reset_position_range(&mut p, 9, 16, 8), Err(PoolError::InvalidTickIndex));
    assert_eq!((p.tick_lower_index, p.tick_upper_index), (-128, 0));
    p.liquidity = 1;
    assert_eq!(reset_position_range(&mut p, -64, 64, 8), Err(PoolError::ClosePositionNotEmpty));
    p.liquidity = 0;
    p.lock_type = LockType::Temporary;
    assert_eq!(reset_position_range(&mut p, -64, 64, 8), Err(PoolError::PositionAlreadyLocked));
}

#[test]
fn position_events_carry_what_happened() {
    let before = position();
    let after = open_position(1, key(9), key(30), -128, 0, 8).unwrap();
    let created = position_created_event(key(40), key(41), &before);
    assert_eq!(created.position_id, key(40));
    assert_eq!(created.pool_id, key(9));
    assert_eq!(created.owner, key(41));
    assert_eq!((created.tick_lower_index, created.tick_upper_index), (-64, 64));
    let fees = fees_collected_event(key(40), 1, 2);
    assert_eq!((fees.fee_amount_a, fees.fee_amount_b), (1, 2));
    let reward = reward_collected_event(key(40), 2, 9);
    assert_eq!((reward.reward_index, reward.reward_amount), (2, 9));
    assert_eq!(position_closed_event(key(40)).position_id, key(40));
    assert_eq!(position_lock_event(key(40), LockType::Permanent).lock_type, 2);
    assert_eq!(position_lock_event(key(40), LockType::Temporary).lock_type, 1);
    let reset = position_range_reset_event(key(40), &before, &after);
    assert_eq!((reset.tick_lower_index_before, reset.tick_upper_index_before), (-64, 64));
    assert_eq!((reset.tick_lower_index_after, reset.tick_upper_index_after), (-128, 0));
}
