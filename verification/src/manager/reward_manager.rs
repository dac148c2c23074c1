use vstd::prelude::*;
use crate::constants::NUM_REWARDS;
use crate::errors::PoolError;
use crate::math::growth_math::{spec_wrapping_add, wrapping_add};
use crate::state::pool::RewardInfo;

verus! {

/// Seconds in a day: emissions must be covered for that long.
pub const DAY_IN_SECONDS: u128 = 86_400;

/// Growth of a reward stream per unit of liquidity over `elapsed` seconds:
/// `floor(elapsed * emissions / liquidity)`. Nothing while no liquidity is
/// active; `None` where the product does not fit in 128 bits.
pub open spec fn spec_reward_growth_delta(elapsed: u64, emissions: u128, liquidity: u128) -> Option<
    int,
> {
    if liquidity == 0 || emissions == 0 || elapsed == 0 {
        Some(0)
    } else if elapsed as int * emissions as int > u128::MAX {
        None
    } else {
        Some((elapsed as int * emissions as int) / (liquidity as int))
    }
}

/// One stream brought up to `timestamp`; an error where the time lies
/// before the last update or the growth does not fit.
pub open spec fn spec_next_reward_info(info: RewardInfo, liquidity: u128, timestamp: u64) -> Result<
    RewardInfo,
    PoolError,
> {
    if timestamp < info.last_updated_timestamp {
        Err(PoolError::InvalidTimestamp)
    } else {
        match spec_reward_growth_delta(
            (timestamp - info.last_updated_timestamp) as u64,
            info.emissions_per_second_x64,
            liquidity,
        ) {
            None => Err(PoolError::LiquidityOverflow),
            Some(delta) => Ok(
                RewardInfo {
                    authority: info.authority,
                    mint: info.mint,
                    vault: info.vault,
                    emissions_per_second_x64: info.emissions_per_second_x64,
                    growth_global_x64: spec_wrapping_add(info.growth_global_x64, delta as u128),
                    last_updated_timestamp: timestamp,
                },
            ),
        }
    }
}

/// The three streams brought up to `timestamp`; the error of the first
/// stream that fails.
pub open spec fn spec_next_reward_infos(infos: [RewardInfo; 3], liquidity: u128, timestamp: u64) -> Result<
    [RewardInfo; 3],
    PoolError,
> {
    match spec_next_reward_info(infos[0], liquidity, timestamp) {
        Err(e) => Err(e),
        Ok(r0) => match spec_next_reward_info(infos[1], liquidity, timestamp) {
            Err(e) => Err(e),
            Ok(r1) => match spec_next_reward_info(infos[2], liquidity, timestamp) {
                Err(e) => Err(e),
                Ok(r2) => Ok([r0, r1, r2]),
            },
        },
    }
}

/// Whether a vault holds what `emissions` pay out in one day.
pub open spec fn spec_vault_covers_a_day(emissions_per_second_x64: u128, vault_amount: u64) -> bool {
    (emissions_per_second_x64 as int * 86_400) / 0x1_0000_0000_0000_0000 <= vault_amount
}

/// The growth of a stream is a quotient of two non-negative numbers and
/// fits in 128 bits.
pub proof fn lemma_reward_growth_delta_bounded(elapsed: u64, emissions: u128, liquidity: u128)
    ensures
        spec_reward_growth_delta(elapsed, emissions, liquidity) is Some ==> 0
            <= spec_reward_growth_delta(elapsed, emissions, liquidity).unwrap() <= u128::MAX,
        elapsed == 0 ==> spec_reward_growth_delta(elapsed, emissions, liquidity) == Some(0int),
        liquidity == 0 ==> spec_reward_growth_delta(elapsed, emissions, liquidity) == Some(0int),
{
    if liquidity != 0 && emissions != 0 && elapsed != 0 && elapsed as int * emissions as int
        <= u128::MAX {
        let n = elapsed as int * emissions as int;
        let d = liquidity as int;
        assert(0 <= n) by (nonlinear_arith)
            requires
                n == elapsed as int * emissions as int,
                0 <= elapsed,
                0 <= emissions,
        ;
        assert(0 <= n / d <= n) by (nonlinear_arith)
            requires
                0 <= n,
                d >= 1,
        ;
    }
}

/// Bringing a stream up to a time and then again up to the same time
/// changes nothing the second time: with no time elapsed nothing is
/// emitted.
pub proof fn lemma_reward_update_idempotent(info: RewardInfo, liquidity: u128, timestamp: u64)
    requires
        spec_next_reward_info(info, liquidity, timestamp) is Ok,
    ensures
        spec_next_reward_info(
            spec_next_reward_info(info, liquidity, timestamp).unwrap(),
            liquidity,
            timestamp,
        ) == spec_next_reward_info(info, liquidity, timestamp),
{
}

/// Brings one reward stream up to `timestamp`.
pub fn next_reward_info(info: &RewardInfo, liquidity: u128, timestamp: u64) -> (r: Result<
    RewardInfo,
    PoolError,
>)
    ensures
        r == spec_next_reward_info(*info, liquidity, timestamp),
{
    if timestamp < info.last_updated_timestamp {
        return Err(PoolError::InvalidTimestamp);
    }
    let elapsed: u64 = timestamp - info.last_updated_timestamp;
    proof {
        lemma_reward_growth_delta_bounded(elapsed, info.emissions_per_second_x64, liquidity);
    }
    let delta: u128 = if liquidity == 0 || info.emissions_per_second_x64 == 0 || elapsed == 0 {
        0
    } else {
        match (elapsed as u128).checked_mul(info.emissions_per_second_x64) {
            Some(product) => product / liquidity,
            None => { return Err(PoolError::LiquidityOverflow); },
        }
    };
    Ok(
        RewardInfo {
            authority: info.authority,
            mint: info.mint,
            vault: info.vault,
            emissions_per_second_x64: info.emissions_per_second_x64,
            growth_global_x64: wrapping_add(info.growth_global_x64, delta),
            last_updated_timestamp: timestamp,
        },
    )
}

/// Brings the three reward streams of a pool up to `timestamp`.
///
/// While no liquidity is active the growth stands still and only the time
/// of the last update moves on. A time before the last update is refused.
pub fn next_reward_infos(infos: &[RewardInfo; NUM_REWARDS], liquidity: u128, timestamp: u64) -> (r:
    Result<[RewardInfo; NUM_REWARDS], PoolError>)
    ensures
        r == spec_next_reward_infos(*infos, liquidity, timestamp),
{
    let r0 = match next_reward_info(&infos[0], liquidity, timestamp) {
        Ok(v) => v,
        Err(e) => { return Err(e); },
    };
    let r1 = match next_reward_info(&infos[1], liquidity, timestamp) {
        Ok(v) => v,
        Err(e) => { return Err(e); },
    };
    let r2 = match next_reward_info(&infos[2], liquidity, timestamp) {
        Ok(v) => v,
        Err(e) => { return Err(e); },
    };
    let r = [r0, r1, r2];
    assert(r =~= [r0, r1, r2]);
    Ok(r)
}

/// Tests whether a vault holds what the given emissions pay out in a day.
pub fn vault_covers_a_day(emissions_per_second_x64: u128, vault_amount: u64) -> (r: bool)
    ensures
        r == spec_vault_covers_a_day(emissions_per_second_x64, vault_amount),
{
    // the quotient and the remainder by two to the power 64, each times
    // the seconds, stay within 128 bits
    let whole: u128 = emissions_per_second_x64 / 0x1_0000_0000_0000_0000u128;
    let fraction: u128 = emissions_per_second_x64 % 0x1_0000_0000_0000_0000u128;
    let per_day: u128 = whole * DAY_IN_SECONDS + (fraction * DAY_IN_SECONDS)
        / 0x1_0000_0000_0000_0000u128;
    assert((emissions_per_second_x64 as int * 86_400) / 0x1_0000_0000_0000_0000 == whole * 86_400
        + (fraction * 86_400) / 0x1_0000_0000_0000_0000) by {
        assert(emissions_per_second_x64 == whole * 0x1_0000_0000_0000_0000 + fraction);
    }
    per_day <= vault_amount as u128
}

} // verus!
