//! The accounting and pricing engine of a concentrated-liquidity market
//! maker.
//!
//! A pool holds its price as a square-root price in Q64.64 and as the tick
//! that the price stands in. Liquidity is supplied over ranges of ticks;
//! swaps walk the ticks, charge fees and move the price; positions earn
//! fees and rewards by the growth inside their range.
//!
//! * `math` holds the arithmetic: the price curve, liquidity, token
//!   amounts, fees, one step of a swap.
//! * `state` holds the records: pool, tick, tick array, position.
//! * `manager` holds the operations on them: the registry of tick arrays,
//!   changes of liquidity, swaps, rewards, positions and bundles; and the
//!   account of liquidity, which says that the active liquidity of a pool
//!   is the liquidity of the positions whose range holds the current
//!   tick, and that every operation keeps it so.
//! * `instructions` makes configurations, fee tiers, pools and tick
//!   arrays.
//! * `transfer_hook` holds the rules that a token's transfers are held to.
//!
//! Every operation runs to its end without waiting on anything and reads no
//! clock: the time is an argument. An operation that fails changes
//! nothing: what it writes is computed first and written only when
//! nothing can fail any more. The engine takes no locks. Two operations on
//! the same pool must not run at the same time; the caller sees to that,
//! for which it suffices to hold the pool, its registry and the position
//! behind one exclusive lock. Different pools share nothing.
//!
//! A step of a swap that meets no liquidity trades nothing, so no fee is
//! charged on it and none is left to share or to keep.

use vstd::prelude::*;

pub mod constants;
pub mod errors;
pub mod events;
pub mod instructions;
pub mod keys;
pub mod manager;
pub mod math;
pub mod state;
pub mod transfer_hook;
pub mod util;

use crate::constants::{MAX_PROTOCOL_FEE_RATE, TICK_ARRAY_SIZE};
use crate::errors::PoolError;
use crate::events::{PoolCreatedEvent, TickArrayCreatedEvent};
use crate::instructions::initialize_fee_tier::spec_initialize_fee_tier;
use crate::instructions::initialize_pool::{spec_initialize_pool, PoolKeys};
use crate::keys::Pubkey;
use crate::state::{FeeTier, Pool, PoolConfig, Tick, TickArray, WhirlpoolBumps};

verus! {

/// Makes the configuration that hosts the authorities and defaults of a
/// set of pools.
///
/// A default protocol fee rate above its maximum is refused.
pub fn initialize_config(
    bump: u8,
    fee_authority: Pubkey,
    collect_protocol_fees_authority: Pubkey,
    reward_emissions_super_authority: Pubkey,
    default_protocol_fee_rate: u16,
) -> (r: Result<PoolConfig, PoolError>)
    ensures
        default_protocol_fee_rate > MAX_PROTOCOL_FEE_RATE ==> r == Err::<PoolConfig, PoolError>(
            PoolError::ProtocolFeeRateMaxExceeded,
        ),
        default_protocol_fee_rate <= MAX_PROTOCOL_FEE_RATE ==> r == Ok::<PoolConfig, PoolError>(
            PoolConfig {
                bump,
                fee_authority,
                collect_protocol_fees_authority,
                reward_emissions_super_authority,
                default_protocol_fee_rate,
            },
        ) && r.unwrap().spec_wf(),
{
    crate::instructions::initialize_config::handler(
        bump,
        fee_authority,
        collect_protocol_fees_authority,
        reward_emissions_super_authority,
        default_protocol_fee_rate,
    )
}

/// Makes a pool, with the fee rates that its fee tier and configuration
/// give by default.
pub fn initialize_pool(
    bumps: WhirlpoolBumps,
    keys: &PoolKeys,
    config: &PoolConfig,
    fee_tier: &FeeTier,
    tick_spacing: u16,
    initial_sqrt_price: u128,
) -> (r: Result<(Pool, PoolCreatedEvent), PoolError>)
    ensures
        match spec_initialize_pool(
            bumps,
            *keys,
            *config,
            *fee_tier,
            tick_spacing,
            initial_sqrt_price,
        ) {
            Ok(pool) => r is Ok && r.unwrap().0 == pool && pool.spec_wf() && r.unwrap().1 == (
            PoolCreatedEvent {
                pool_id: keys.pool,
                token_mint_a: keys.token_mint_a,
                token_mint_b: keys.token_mint_b,
                tick_spacing,
                initial_sqrt_price,
            }),
            Err(e) => r == Err::<(Pool, PoolCreatedEvent), PoolError>(e),
        },
{
    crate::instructions::initialize_pool::handler(
        bumps,
        keys,
        config,
        fee_tier,
        tick_spacing,
        initial_sqrt_price,
    )
}

/// Makes a tick array of a pool: a fixed-length block of tick records
/// that starts at `start_tick_index`, which has to be a multiple of the
/// size of an array times the tick spacing of the pool.
pub fn initialize_tick_array(bump: u8, pool_id: Pubkey, pool: &Pool, start_tick_index: i32) -> (r:
    Result<(TickArray, TickArrayCreatedEvent), PoolError>)
    ensures
        match r {
            Ok((array, event)) => {
                &&& pool.tick_spacing > 0
                &&& start_tick_index as int % (pool.tick_spacing as int * TICK_ARRAY_SIZE as int)
                    == 0
                &&& array.spec_wf(pool.tick_spacing as int)
                &&& array.bump == bump
                &&& array.pool == pool_id
                &&& array.start_tick_index == start_tick_index
                &&& forall|k: int|
                    0 <= k < TICK_ARRAY_SIZE ==> array.ticks@[k] == Tick::spec_empty()
                &&& event == (TickArrayCreatedEvent { pool_id, start_tick_index })
            },
            Err(e) => {
                &&& pool.tick_spacing == 0 ==> e == PoolError::InvalidTickSpacing
                &&& pool.tick_spacing > 0 ==> e == PoolError::InvalidTickIndex
                    && start_tick_index as int % (pool.tick_spacing as int
                    * TICK_ARRAY_SIZE as int) != 0
            },
        },
{
    crate::instructions::initialize_tick_array::handler(bump, pool_id, pool, start_tick_index)
}

/// Makes the fee tier that pools of one tick spacing take their default
/// fee rate from.
pub fn initialize_fee_tier(bump: u8, config: Pubkey, tick_spacing: u16, default_fee_rate: u16) -> (r:
    Result<FeeTier, PoolError>)
    ensures
        r == spec_initialize_fee_tier(bump, config, tick_spacing, default_fee_rate),
        r is Ok ==> r.unwrap().spec_wf(),
{
    crate::instructions::initialize_fee_tier::handler(bump, config, tick_spacing, default_fee_rate)
}

} // verus!
