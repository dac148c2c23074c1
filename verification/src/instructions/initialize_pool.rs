use vstd::prelude::*;
use crate::constants::{
    MAX_FEE_RATE, MAX_PROTOCOL_FEE_RATE, MAX_SQRT_PRICE, MAX_TICK_INDEX, MAX_TICK_SPACING,
    MIN_SQRT_PRICE, MIN_TICK_SPACING,
};
use crate::errors::PoolError;
use crate::events::PoolCreatedEvent;
use crate::keys::{spec_bytes_less, Pubkey};
use crate::math::price_math::{
    lemma_sqrt_price_never_falls, lemma_sqrt_price_step_never_falls, spec_tick_of_price,
    sqrt_price_to_tick,
};
use crate::state::config::PoolConfig;
use crate::state::fee_tier::FeeTier;
use crate::state::pool::{spec_pool_price_valid, Pool, RewardInfo};
use crate::state::WhirlpoolBumps;

verus! {

/// The keys that a new pool is made of.
#[derive(Clone, Copy, Debug, PartialEq, Eq)]
pub struct PoolKeys {
    /// The address of the pool.
    pub pool: Pubkey,
    /// The configuration the pool belongs to.
    pub config: Pubkey,
    /// The fee tier the pool is made from.
    pub fee_tier: Pubkey,
    /// Asset A.
    pub token_mint_a: Pubkey,
    /// Asset B.
    pub token_mint_b: Pubkey,
    /// The account that holds the pool's asset A.
    pub token_vault_a: Pubkey,
    /// The account that holds the pool's asset B.
    pub token_vault_b: Pubkey,
}

/// The pool that `handler` makes, given the tick of the initial price.
pub open spec fn spec_new_pool(
    bumps: WhirlpoolBumps,
    keys: PoolKeys,
    config: PoolConfig,
    fee_tier: FeeTier,
    tick_spacing: u16,
    initial_sqrt_price: u128,
) -> Pool {
    Pool {
        bump: bumps.pool_bump,
        config: keys.config,
        token_mint_a: keys.token_mint_a,
        token_mint_b: keys.token_mint_b,
        token_vault_a: keys.token_vault_a,
        token_vault_b: keys.token_vault_b,
        fee_tier: keys.fee_tier,
        tick_current_index: spec_tick_of_price(initial_sqrt_price as int) as i32,
        sqrt_price: initial_sqrt_price,
        fee_growth_global_a: 0,
        fee_growth_global_b: 0,
        protocol_fee_owed_a: 0,
        protocol_fee_owed_b: 0,
        liquidity: 0,
        fee_rate: fee_tier.default_fee_rate,
        protocol_fee_rate: config.default_protocol_fee_rate,
        tick_spacing,
        reward_infos: [RewardInfo::spec_empty(), RewardInfo::spec_empty(), RewardInfo::spec_empty()],
    }
}

/// What `handler` returns: in turn, the pair must be in canonical order,
/// the price within its bounds, the spacing within its limits and
/// that of the fee tier, and the two default rates within their maxima.
pub open spec fn spec_initialize_pool(
    bumps: WhirlpoolBumps,
    keys: PoolKeys,
    config: PoolConfig,
    fee_tier: FeeTier,
    tick_spacing: u16,
    initial_sqrt_price: u128,
) -> Result<Pool, PoolError> {
    if !spec_bytes_less(keys.token_mint_a@, keys.token_mint_b@) {
        Err(PoolError::InvalidTokenMintOrder)
    } else if !spec_pool_price_valid(initial_sqrt_price as int) {
        Err(PoolError::SqrtPriceOutOfBounds)
    } else if tick_spacing < MIN_TICK_SPACING || tick_spacing > MAX_TICK_SPACING || tick_spacing
        != fee_tier.tick_spacing {
        Err(PoolError::InvalidTickSpacing)
    } else if fee_tier.default_fee_rate > MAX_FEE_RATE {
        Err(PoolError::FeeRateMaxExceeded)
    } else if config.default_protocol_fee_rate > MAX_PROTOCOL_FEE_RATE {
        Err(PoolError::ProtocolFeeRateMaxExceeded)
    } else {
        Ok(spec_new_pool(bumps, keys, config, fee_tier, tick_spacing, initial_sqrt_price))
    }
}

/// Makes a pool of two assets at one tick spacing, and the record of its
/// creation.
///
/// The pool starts without liquidity, fees or rewards, at the given
/// price and in the tick of that price, with the default rates of its
/// fee tier and configuration. The identity of asset A must come
/// strictly before that of asset B, so that a pair has one pool only.
pub fn handler(
    bumps: WhirlpoolBumps,
    keys: &PoolKeys,
    config: &PoolConfig,
    fee_tier: &FeeTier,
    tick_spacing: u16,
    initial_sqrt_price: u128,
) -> (r: Result<(Pool, PoolCreatedEvent), PoolError>)
    ensures
        match spec_initialize_pool(
            bumps,
            *keys,
            *config,
            *fee_tier,
            tick_spacing,
            initial_sqrt_price,
        ) {
            Ok(pool) => r is Ok && r.unwrap().0 == pool && pool.spec_wf() && r.unwrap().1 == (
            PoolCreatedEvent {
                pool_id: keys.pool,
                token_mint_a: keys.token_mint_a,
                token_mint_b: keys.token_mint_b,
                tick_spacing,
                initial_sqrt_price,
            }),
            Err(e) => r == Err::<(Pool, PoolCreatedEvent), PoolError>(e),
        },
{
    if !keys.token_mint_a.precedes(&keys.token_mint_b) {
        return Err(PoolError::InvalidTokenMintOrder);
    }
    if initial_sqrt_price < MIN_SQRT_PRICE || initial_sqrt_price > MAX_SQRT_PRICE {
        return Err(PoolError::SqrtPriceOutOfBounds);
    }
    proof {
        lemma_sqrt_price_never_falls(0, MAX_TICK_INDEX as int);
    }
    let tick: i32 = match sqrt_price_to_tick(initial_sqrt_price) {
        Ok(t) => t,
        Err(e) => { return Err(e); },
    };
    if tick_spacing < MIN_TICK_SPACING || tick_spacing > MAX_TICK_SPACING || tick_spacing
        != fee_tier.tick_spacing {
        return Err(PoolError::InvalidTickSpacing);
    }
    if fee_tier.default_fee_rate > MAX_FEE_RATE {
        return Err(PoolError::FeeRateMaxExceeded);
    }
    if config.default_protocol_fee_rate > MAX_PROTOCOL_FEE_RATE {
        return Err(PoolError::ProtocolFeeRateMaxExceeded);
    }
    proof {
        lemma_sqrt_price_step_never_falls(tick as int);
    }
    let rewards = [RewardInfo::new(), RewardInfo::new(), RewardInfo::new()];
    assert(rewards =~= [
        RewardInfo::spec_empty(),
        RewardInfo::spec_empty(),
        RewardInfo::spec_empty(),
    ]);
    let pool = Pool {
        bump: bumps.pool_bump,
        config: keys.config,
        token_mint_a: keys.token_mint_a,
        token_mint_b: keys.token_mint_b,
        token_vault_a: keys.token_vault_a,
        token_vault_b: keys.token_vault_b,
        fee_tier: keys.fee_tier,
        tick_current_index: tick,
        sqrt_price: initial_sqrt_price,
        fee_growth_global_a: 0,
        fee_growth_global_b: 0,
        protocol_fee_owed_a: 0,
        protocol_fee_owed_b: 0,
        liquidity: 0,
        fee_rate: fee_tier.default_fee_rate,
        protocol_fee_rate: config.default_protocol_fee_rate,
        tick_spacing,
        reward_infos: rewards,
    };
    let event = PoolCreatedEvent {
        pool_id: keys.pool,
        token_mint_a: keys.token_mint_a,
        token_mint_b: keys.token_mint_b,
        tick_spacing,
        initial_sqrt_price,
    };
    Ok((pool, event))
}

} // verus!
