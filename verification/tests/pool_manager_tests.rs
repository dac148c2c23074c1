use pool::errors::PoolError;
use pool::events::{
    liquidity_changed_event, swap_event, FeeRateChangedEvent, ProtocolFeeRateChangedEvent,
    ProtocolFeesCollectedEvent, RewardEmissionsChangedEvent, RewardInitializedEvent,
};
use pool::instructions::initialize_pool::PoolKeys;
use pool::keys::Pubkey;
use pool::manager::bundle_manager::{
    close_bundled_position, new_bundle, open_bundled_position, BundleError,
};
use pool::manager::liquidity_manager::LiquidityChange;
use pool::manager::pool_manager::{
    collect_protocol_fees, initialize_reward, set_fee_rate, set_protocol_fee_rate,
    set_reward_emissions,
};
use pool::manager::reward_manager::{next_reward_info, next_reward_infos, vault_covers_a_day};
use pool::manager::swap_manager::SwapResult;
use pool::math::fee_math::fee_growth_delta;
use pool::math::growth_math::{wrapping_add, wrapping_sub};
use pool::math::tick_to_sqrt_price;
use pool::state::{Pool, RewardInfo, WhirlpoolBumps};
use pool::{initialize_config, initialize_fee_tier, initialize_pool};

const ONE: u128 = 1u128 << 64;

fn key(n: u8) -> Pubkey {
    Pubkey::new_from_array([n; 32])
}

fn pool() -> Pool {
    let config = initialize_config(255, key(20), key(21), key(22), 0).unwrap();
    let tier = initialize_fee_tier(254, key(10), 8, 3000).unwrap();
    let keys = PoolKeys {
        pool: key(9),
        config: key(10),
        fee_tier: key(11),
        token_mint_a: key(1),
        token_mint_b: key(2),
        token_vault_a: key(3),
        token_vault_b: key(4),
    };
    let price = tick_to_sqrt_price(-100).unwrap();
    initialize_pool(WhirlpoolBumps { pool_bump: 1 }, &keys, &config, &tier, 8, price).unwrap().0
}

fn stream(emissions: u128, growth: u128, last: u64) -> RewardInfo {
    RewardInfo {
        authority: key(1),
        mint: key(2),
        vault: key(3),
        emissions_per_second_x64: emissions,
        growth_global_x64: growth,
        last_updated_timestamp: last,
    }
}

#[test]
fn fee_rate_is_set_up_to_its_maximum() {
    let mut p = pool();
    assert_eq!(
        set_fee_rate(&mut p, key(9), 10_000),
        Ok(FeeRateChangedEvent { pool_id: key(9), fee_rate: 10_000 })
    );
    assert_eq!(p.fee_rate, 10_000);
    assert_eq!(set_fee_rate(&mut p, key(9), 10_001), Err(PoolError::FeeRateMaxExceeded));
    assert_eq!(p.fee_rate, 10_000);
}

#[test]
fn protocol_fee_rate_is_set_up_to_its_maximum() {
    let mut p = pool();
    assert_eq!(
        set_protocol_fee_rate(&mut p, key(9), 2_500),
        Ok(ProtocolFeeRateChangedEvent { pool_id: key(9), protocol_fee_rate: 2_500 })
    );
    assert_eq!(p.protocol_fee_rate, 2_500);
    assert_eq!(
        set_protocol_fee_rate(&mut p, key(9), 10_001),
        Err(PoolError::ProtocolFeeRateMaxExceeded)
    );
    assert_eq!(p.protocol_fee_rate, 2_500);
}

#[test]
fn collecting_protocol_fees_leaves_nothing_owed() {
    let mut p = pool();
    p.protocol_fee_owed_a = 12;
    p.protocol_fee_owed_b = 34;
    assert_eq!(
        collect_protocol_fees(&mut p, key(9)),
        ProtocolFeesCollectedEvent {
            pool_id: key(9),
            protocol_fee_amount_a: 12,
            protocol_fee_amount_b: 34
        }
    );
    assert_eq!((p.protocol_fee_owed_a, p.protocol_fee_owed_b), (0, 0));
    assert_eq!(
        collect_protocol_fees(&mut p, key(9)),
        ProtocolFeesCollectedEvent { pool_id: key(9), protocol_fee_amount_a: 0, protocol_fee_amount_b: 0 }
    );
}

#[test]
fn a_reward_stream_is_set_up_without_emissions() {
    let mut p = pool();
    assert_eq!(
        initialize_reward(&mut p, key(9), 1, key(40), key(41), key(42)),
        Ok(RewardInitializedEvent { pool_id: key(9), reward_index: 1, reward_mint: key(41) })
    );
    assert_eq!(p.reward_infos[1].authority, key(40));
    assert_eq!(p.reward_infos[1].mint, key(41));
    assert_eq!(p.reward_infos[1].vault, key(42));
    assert_eq!(p.reward_infos[1].emissions_per_second_x64, 0);
    assert_eq!(p.reward_infos[0], RewardInfo::new());
    assert_eq!(p.reward_infos[2], RewardInfo::new());
    assert_eq!(
        initialize_reward(&mut p, key(9), 3, key(40), key(41), key(42)),
        Err(PoolError::InvalidRewardIndex)
    );
}

#[test]
fn emissions_need_a_vault_that_covers_a_day() {
    let mut p = pool();
    p.liquidity = 1_000;
    // one token a second is 86400 a day
    assert_eq!(
        set_reward_emissions(&mut p, key(9), 0, ONE, 86_399, 10),
        Err(PoolError::RewardVaultAmountInsufficient)
    );
    assert_eq!(p.reward_infos[0].last_updated_timestamp, 0);
    assert_eq!(
        set_reward_emissions(&mut p, key(9), 0, ONE, 86_400, 10),
        Ok(RewardEmissionsChangedEvent {
            pool_id: key(9),
            reward_index: 0,
            emissions_per_second_x64: ONE
        })
    );
    assert_eq!(p.reward_infos[0].emissions_per_second_x64, ONE);
    assert_eq!(p.reward_infos[0].last_updated_timestamp, 10);
    assert_eq!(p.reward_infos[1].last_updated_timestamp, 10);
    assert_eq!(
        set_reward_emissions(&mut p, key(9), 3, ONE, u64::MAX, 10),
        Err(PoolError::InvalidRewardIndex)
    );
    assert_eq!(
        set_reward_emissions(&mut p, key(9), 0, ONE, u64::MAX, 9),
        Err(PoolError::InvalidTimestamp)
    );
    assert!(vault_covers_a_day(ONE / 2, 43_200));
    assert!(!vault_covers_a_day(ONE / 2 + ONE, 129_599));
    assert!(vault_covers_a_day(0, 0));
    assert!(!vault_covers_a_day(u128::MAX, u64::MAX));
}

#[test]
fn reward_growth_is_emissions_times_seconds_over_liquidity() {
    let info = stream(3 * ONE, 7, 100);
    let next = next_reward_info(&info, 1_000, 160).unwrap();
    // 60 seconds * 3 per second / 1000
    assert_eq!(next.growth_global_x64, 7 + 180 * ONE / 1_000);
    assert_eq!(next.last_updated_timestamp, 160);
    assert_eq!(next.emissions_per_second_x64, 3 * ONE);
    assert_eq!(next.authority, key(1));
}

#[test]
fn reward_growth_stands_still_without_liquidity_or_time() {
    let info = stream(3 * ONE, 7, 100);
    assert_eq!(next_reward_info(&info, 0, 160), Ok(stream(3 * ONE, 7, 160)));
    assert_eq!(next_reward_info(&info, 1_000, 100), Ok(info));
    let once = next_reward_info(&info, 1_000, 160).unwrap();
    assert_eq!(next_reward_info(&once, 1_000, 160), Ok(once));
    assert_eq!(next_reward_info(&once, 5, 160), Ok(once));
}

#[test]
fn reward_update_refuses_a_time_before_the_last_update() {
    let info = stream(3 * ONE, 7, 100);
    assert_eq!(next_reward_info(&info, 1_000, 99), Err(PoolError::InvalidTimestamp));
    let infos = [stream(0, 0, 5), stream(0, 0, 50), stream(0, 0, 7)];
    assert_eq!(next_reward_infos(&infos, 1, 49), Err(PoolError::InvalidTimestamp));
    assert_eq!(
        next_reward_infos(&infos, 1, 50),
        Ok([stream(0, 0, 50), stream(0, 0, 50), stream(0, 0, 50)])
    );
}

#[test]
fn reward_update_refuses_growth_that_does_not_fit() {
    let info = stream(u128::MAX, 0, 0);
    assert_eq!(next_reward_info(&info, 1, 2), Err(PoolError::LiquidityOverflow));
    assert_eq!(next_reward_info(&info, 1, 1).unwrap().growth_global_x64, u128::MAX);
    // the accumulator itself wraps around
    let info = stream(5, u128::MAX, 0);
    assert_eq!(next_reward_info(&info, 1, 1).unwrap().growth_global_x64, 4);
}

#[test]
fn fee_growth_is_the_fee_per_unit_of_liquidity() {
    assert_eq!(fee_growth_delta(300, 1_000_000), 5_534_023_222_112_865);
    assert_eq!(fee_growth_delta(1, 1), ONE);
    assert_eq!(fee_growth_delta(u64::MAX, 1), (u64::MAX as u128) << 64);
    assert_eq!(fee_growth_delta(300, 0), 0);
    assert_eq!(fee_growth_delta(0, 5), 0);
}

#[test]
fn growth_accumulators_wrap_around() {
    assert_eq!(wrapping_add(u128::MAX, 2), 1);
    assert_eq!(wrapping_add(5, 6), 11);
    assert_eq!(wrapping_sub(1, 2), u128::MAX);
    assert_eq!(wrapping_sub(wrapping_add(u128::MAX - 3, 10), u128::MAX - 3), 10);
    assert_eq!(wrapping_sub(9, 4), 5);
}

#[test]
fn a_bundle_has_a_hundred_empty_slots() {
    let bundle = new_bundle(3, key(50));
    assert_eq!(bundle.bump, 3);
    assert_eq!(bundle.position_bundle_mint, key(50));
    assert_eq!(bundle.positions.len(), 100);
    assert!(bundle.positions.iter().all(|s| s.is_none()));
}

#[test]
fn a_bundled_position_opens_in_an_empty_slot() {
    let mut bundle = new_bundle(3, key(50));
    assert_eq!(open_bundled_position(&mut bundle, 99, key(9), -64, 64, 8), Ok(()));
    let p = bundle.positions[99].unwrap();
    assert_eq!(p.pool, key(9));
    assert_eq!((p.tick_lower_index, p.tick_upper_index), (-64, 64));
    assert_eq!(p.liquidity, 0);
    assert_eq!(
        open_bundled_position(&mut bundle, 99, key(9), -64, 64, 8),
        Err(BundleError::SlotInUse)
    );
    assert_eq!(
        open_bundled_position(&mut bundle, 100, key(9), -64, 64, 8),
        Err(BundleError::InvalidSlot)
    );
    assert_eq!(
        open_bundled_position(&mut bundle, 0, key(9), 64, 64, 8),
        Err(BundleError::Position(PoolError::SameTickRangeNotAllowed))
    );
    assert_eq!(
        open_bundled_position(&mut bundle, 0, key(9), 65, 72, 8),
        Err(BundleError::Position(PoolError::InvalidTickIndex))
    );
    assert!(bundle.positions[0].is_none());
}

#[test]
fn a_bundled_position_closes_only_when_empty() {
    let mut bundle = new_bundle(3, key(50));
    assert_eq!(close_bundled_position(&mut bundle, 5), Err(BundleError::SlotEmpty));
    assert_eq!(close_bundled_position(&mut bundle, 100), Err(BundleError::InvalidSlot));
    open_bundled_position(&mut bundle, 5, key(9), -64, 64, 8).unwrap();
    let mut p = bundle.positions[5].unwrap();
    p.liquidity = 1;
    bundle.positions[5] = Some(p);
    assert_eq!(
        close_bundled_position(&mut bundle, 5),
        Err(BundleError::Position(PoolError::ClosePositionNotEmpty))
    );
    p.liquidity = 0;
    p.reward_infos[2].amount_owed = 1;
    bundle.positions[5] = Some(p);
    assert_eq!(
        close_bundled_position(&mut bundle, 5),
        Err(BundleError::Position(PoolError::ClosePositionNotEmpty))
    );
    p.reward_infos[2].amount_owed = 0;
    bundle.positions[5] = Some(p);
    assert_eq!(close_bundled_position(&mut bundle, 5), Ok(()));
    assert!(bundle.positions[5].is_none());
}

#[test]
fn events_carry_what_the_operations_report() {
    let result = SwapResult {
        amount_in: 1,
        amount_out: 2,
        fee_amount: 3,
        protocol_fee: 4,
        a_to_b: true,
        sqrt_price: 5,
        tick_index: 6,
        fee_growth_accrued: 7,
    };
    let event = swap_event(key(9), &result);
    assert_eq!(event.pool_id, key(9));
    assert_eq!((event.amount_in, event.amount_out, event.fee_amount), (1, 2, 3));
    assert!(event.a_to_b);
    let change =
        LiquidityChange { amount_a: 1, amount_b: 2, liquidity_before: 3, liquidity_after: 4 };
    let event = liquidity_changed_event(key(8), &change);
    assert_eq!(event.position_id, key(8));
    assert_eq!((event.liquidity_before, event.liquidity_after), (3, 4));
}
