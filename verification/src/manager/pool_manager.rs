use vstd::prelude::*;
use crate::constants::{MAX_FEE_RATE, MAX_PROTOCOL_FEE_RATE, NUM_REWARDS};
use crate::errors::PoolError;
use crate::events::{
    FeeRateChangedEvent, ProtocolFeeRateChangedEvent, ProtocolFeesCollectedEvent,
    RewardEmissionsChangedEvent, RewardInitializedEvent,
};
use crate::keys::Pubkey;
use crate::manager::reward_manager::{
    next_reward_infos, spec_next_reward_infos, spec_vault_covers_a_day, vault_covers_a_day,
};
use crate::state::pool::{Pool, RewardInfo};

verus! {

/// Sets the fee rate of a pool. A rate above its maximum is refused, and
/// the pool is then left as it is.
pub fn set_fee_rate(pool: &mut Pool, pool_id: Pubkey, fee_rate: u16) -> (r: Result<
    FeeRateChangedEvent,
    PoolError,
>)
    ensures
        fee_rate > MAX_FEE_RATE ==> r == Err::<FeeRateChangedEvent, PoolError>(
            PoolError::FeeRateMaxExceeded,
        ) && *final(pool) == *old(pool),
        fee_rate <= MAX_FEE_RATE ==> r == Ok::<FeeRateChangedEvent, PoolError>(
            FeeRateChangedEvent { pool_id, fee_rate },
        ) && *final(pool) == (Pool { fee_rate, ..*old(pool) }),
        old(pool).spec_wf() ==> final(pool).spec_wf(),
{
    if fee_rate > MAX_FEE_RATE {
        return Err(PoolError::FeeRateMaxExceeded);
    }
    pool.fee_rate = fee_rate;
    Ok(FeeRateChangedEvent { pool_id, fee_rate })
}

/// Sets the protocol fee rate of a pool. A rate above its maximum is
/// refused, and the pool is then left as it is.
pub fn set_protocol_fee_rate(pool: &mut Pool, pool_id: Pubkey, protocol_fee_rate: u16) -> (r:
    Result<ProtocolFeeRateChangedEvent, PoolError>)
    ensures
        protocol_fee_rate > MAX_PROTOCOL_FEE_RATE ==> r == Err::<
            ProtocolFeeRateChangedEvent,
            PoolError,
        >(PoolError::ProtocolFeeRateMaxExceeded) && *final(pool) == *old(pool),
        protocol_fee_rate <= MAX_PROTOCOL_FEE_RATE ==> r == Ok::<
            ProtocolFeeRateChangedEvent,
            PoolError,
        >(ProtocolFeeRateChangedEvent { pool_id, protocol_fee_rate }) && *final(pool) == (Pool {
            protocol_fee_rate,
            ..*old(pool)
        }),
        old(pool).spec_wf() ==> final(pool).spec_wf(),
{
    if protocol_fee_rate > MAX_PROTOCOL_FEE_RATE {
        return Err(PoolError::ProtocolFeeRateMaxExceeded);
    }
    pool.protocol_fee_rate = protocol_fee_rate;
    Ok(ProtocolFeeRateChangedEvent { pool_id, protocol_fee_rate })
}

/// Hands out the protocol fees that a pool has accrued: reports the two
/// amounts and leaves nothing owed.
pub fn collect_protocol_fees(pool: &mut Pool, pool_id: Pubkey) -> (r: ProtocolFeesCollectedEvent)
    ensures
        r == (ProtocolFeesCollectedEvent {
            pool_id,
            protocol_fee_amount_a: old(pool).protocol_fee_owed_a,
            protocol_fee_amount_b: old(pool).protocol_fee_owed_b,
        }),
        *final(pool) == (Pool { protocol_fee_owed_a: 0, protocol_fee_owed_b: 0, ..*old(pool) }),
        old(pool).spec_wf() ==> final(pool).spec_wf(),
{
    let event = ProtocolFeesCollectedEvent {
        pool_id,
        protocol_fee_amount_a: pool.protocol_fee_owed_a,
        protocol_fee_amount_b: pool.protocol_fee_owed_b,
    };
    pool.protocol_fee_owed_a = 0;
    pool.protocol_fee_owed_b = 0;
    event
}

/// Sets up a reward stream of a pool: names its authority, its asset and
/// its vault, with no emissions yet. An index that names no stream is
/// refused, and the pool is then left as it is.
pub fn initialize_reward(
    pool: &mut Pool,
    pool_id: Pubkey,
    reward_index: u8,
    authority: Pubkey,
    mint: Pubkey,
    vault: Pubkey,
) -> (r: Result<RewardInitializedEvent, PoolError>)
    ensures
        reward_index >= NUM_REWARDS ==> r == Err::<RewardInitializedEvent, PoolError>(
            PoolError::InvalidRewardIndex,
        ) && *final(pool) == *old(pool),
        reward_index < NUM_REWARDS ==> r == Ok::<RewardInitializedEvent, PoolError>(
            RewardInitializedEvent { pool_id, reward_index, reward_mint: mint },
        ) && final(pool).reward_infos@ == old(pool).reward_infos@.update(
            reward_index as int,
            RewardInfo {
                authority,
                mint,
                vault,
                emissions_per_second_x64: 0,
                growth_global_x64: old(pool).reward_infos[reward_index as int].growth_global_x64,
                last_updated_timestamp: old(pool).reward_infos[reward_index
                    as int].last_updated_timestamp,
            },
        ) && *final(pool) == (Pool { reward_infos: final(pool).reward_infos, ..*old(pool) }),
        old(pool).spec_wf() ==> final(pool).spec_wf(),
{
    if reward_index as usize >= NUM_REWARDS {
        return Err(PoolError::InvalidRewardIndex);
    }
    let i: usize = reward_index as usize;
    let growth: u128 = pool.reward_infos[i].growth_global_x64;
    let last: u64 = pool.reward_infos[i].last_updated_timestamp;
    pool.reward_infos[i] = RewardInfo {
        authority,
        mint,
        vault,
        emissions_per_second_x64: 0,
        growth_global_x64: growth,
        last_updated_timestamp: last,
    };
    Ok(RewardInitializedEvent { pool_id, reward_index, reward_mint: mint })
}

/// What `set_reward_emissions` writes to the streams of a pool.
pub open spec fn spec_set_reward_emissions(
    pool: Pool,
    reward_index: u8,
    emissions_per_second_x64: u128,
    vault_amount: u64,
    timestamp: u64,
) -> Result<Seq<RewardInfo>, PoolError> {
    if reward_index >= NUM_REWARDS {
        Err(PoolError::InvalidRewardIndex)
    } else {
        match spec_next_reward_infos(pool.reward_infos, pool.liquidity, timestamp) {
            Err(e) => Err(e),
            Ok(rewards) => if !spec_vault_covers_a_day(emissions_per_second_x64, vault_amount) {
                Err(PoolError::RewardVaultAmountInsufficient)
            } else {
                Ok(
                    rewards@.update(
                        reward_index as int,
                        RewardInfo {
                            emissions_per_second_x64,
                            ..rewards[reward_index as int]
                        },
                    ),
                )
            },
        }
    }
}

/// Sets the emissions of a reward stream.
///
/// The streams are first brought up to `timestamp`, so that what was
/// emitted at the old rate is accounted for. The vault must hold what the
/// new rate pays out in a day. On a failure the pool is left as it is.
pub fn set_reward_emissions(
    pool: &mut Pool,
    pool_id: Pubkey,
    reward_index: u8,
    emissions_per_second_x64: u128,
    vault_amount: u64,
    timestamp: u64,
) -> (r: Result<RewardEmissionsChangedEvent, PoolError>)
    ensures
        match spec_set_reward_emissions(
            *old(pool),
            reward_index,
            emissions_per_second_x64,
            vault_amount,
            timestamp,
        ) {
            Ok(rewards) => r == Ok::<RewardEmissionsChangedEvent, PoolError>(
                RewardEmissionsChangedEvent { pool_id, reward_index, emissions_per_second_x64 },
            ) && final(pool).reward_infos@ == rewards && *final(pool) == (Pool {
                reward_infos: final(pool).reward_infos,
                ..*old(pool)
            }),
            Err(e) => r == Err::<RewardEmissionsChangedEvent, PoolError>(e) && *final(pool)
                == *old(pool),
        },
        old(pool).spec_wf() ==> final(pool).spec_wf(),
{
    if reward_index as usize >= NUM_REWARDS {
        return Err(PoolError::InvalidRewardIndex);
    }
    let mut rewards = match next_reward_infos(&pool.reward_infos, pool.liquidity, timestamp) {
        Ok(v) => v,
        Err(e) => { return Err(e); },
    };
    if !vault_covers_a_day(emissions_per_second_x64, vault_amount) {
        return Err(PoolError::RewardVaultAmountInsufficient);
    }
    let i: usize = reward_index as usize;
    let mut info: RewardInfo = rewards[i];
    info.emissions_per_second_x64 = emissions_per_second_x64;
    rewards[i] = info;
    pool.reward_infos = rewards;
    Ok(RewardEmissionsChangedEvent { pool_id, reward_index, emissions_per_second_x64 })
}

} // verus!
