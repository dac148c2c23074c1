use vstd::prelude::*;
use crate::constants::{
    MAX_FEE_RATE, MAX_PROTOCOL_FEE_RATE, MAX_SQRT_PRICE, MAX_TICK_INDEX, MAX_TICK_SPACING,
    MIN_SQRT_PRICE, MIN_TICK_INDEX, MIN_TICK_SPACING, NUM_REWARDS,
};
use crate::keys::{spec_bytes_less, Pubkey};
use crate::math::price_math::{spec_sqrt_price_at_tick, sqrt_price_near_tick};

verus! {

/// One reward stream of a pool.
#[derive(Clone, Copy, Debug, PartialEq, Eq)]
pub struct RewardInfo {
    /// Who may set the emissions of the stream.
    pub authority: Pubkey,
    /// The asset the stream pays out.
    pub mint: Pubkey,
    /// The account the stream pays from.
    pub vault: Pubkey,
    /// Emission per second, in Q64.64.
    pub emissions_per_second_x64: u128,
    /// Reward emitted so far per unit of liquidity, in Q64.64.
    pub growth_global_x64: u128,
    /// Time of the last update, in seconds.
    pub last_updated_timestamp: u64,
}

/// A pool of two assets at one tick spacing.
#[derive(Clone, Copy, Debug, PartialEq, Eq)]
pub struct Pool {
    /// Bump of the address the pool is stored under.
    pub bump: u8,
    /// The configuration the pool belongs to.
    pub config: Pubkey,
    /// Asset A.
    pub token_mint_a: Pubkey,
    /// Asset B.
    pub token_mint_b: Pubkey,
    /// The account that holds the pool's asset A.
    pub token_vault_a: Pubkey,
    /// The account that holds the pool's asset B.
    pub token_vault_b: Pubkey,
    /// The fee tier the pool was made from.
    pub fee_tier: Pubkey,
    /// The tick the price stands in.
    pub tick_current_index: i32,
    /// The square-root price, in Q64.64.
    pub sqrt_price: u128,
    /// Fees of asset A collected so far per unit of liquidity, in Q64.64.
    pub fee_growth_global_a: u128,
    /// Fees of asset B collected so far per unit of liquidity, in Q64.64.
    pub fee_growth_global_b: u128,
    /// Protocol fees of asset A not yet collected.
    pub protocol_fee_owed_a: u64,
    /// Protocol fees of asset B not yet collected.
    pub protocol_fee_owed_b: u64,
    /// Liquidity active at the current price.
    pub liquidity: u128,
    /// Fee rate, in hundredths of a basis point.
    pub fee_rate: u16,
    /// Protocol fee rate, in basis points of the fee.
    pub protocol_fee_rate: u16,
    /// Distance between usable ticks.
    pub tick_spacing: u16,
    /// The reward streams.
    pub reward_infos: [RewardInfo; NUM_REWARDS],
}

/// A square-root price that a pool may hold: within the bounds of the
/// price, both included. The upper bound lies one unit below the price of
/// tick zero, so the price of a pool stands in a tick below zero; the
/// lower bound lies below the price of the lowest tick, in the tick just
/// below it.
pub open spec fn spec_pool_price_valid(sqrt_price: int) -> bool {
    MIN_SQRT_PRICE <= sqrt_price <= MAX_SQRT_PRICE
}

/// The price stands in the tick: not below the price of the tick and not
/// above the price of the next. It stands on the upper end after the tick
/// above was crossed downward. The tick just below the lowest has no
/// price of its own, and holds every price up to that of the lowest tick.
pub open spec fn spec_price_in_tick(sqrt_price: int, tick: int) -> bool {
    &&& MIN_TICK_INDEX - 1 <= tick <= MAX_TICK_INDEX
    &&& tick >= MIN_TICK_INDEX ==> spec_sqrt_price_at_tick(tick) <= sqrt_price
    &&& sqrt_price <= spec_sqrt_price_at_tick(tick + 1)
}

impl RewardInfo {
    /// A stream that was never set up.
    pub open spec fn spec_empty() -> RewardInfo {
        RewardInfo {
            authority: Pubkey::spec_zero(),
            mint: Pubkey::spec_zero(),
            vault: Pubkey::spec_zero(),
            emissions_per_second_x64: 0,
            growth_global_x64: 0,
            last_updated_timestamp: 0,
        }
    }

    /// Makes a stream that was never set up.
    pub fn new() -> (r: RewardInfo)
        ensures
            r == RewardInfo::spec_empty(),
    {
        RewardInfo {
            authority: Pubkey::zero(),
            mint: Pubkey::zero(),
            vault: Pubkey::zero(),
            emissions_per_second_x64: 0,
            growth_global_x64: 0,
            last_updated_timestamp: 0,
        }
    }
}

impl Pool {
    /// The pair is in canonical order, rates and spacing are within their
    /// limits, and the price is valid and stands in the current tick.
    pub open spec fn spec_wf(&self) -> bool {
        &&& spec_bytes_less(self.token_mint_a@, self.token_mint_b@)
        &&& self.fee_rate <= MAX_FEE_RATE
        &&& self.protocol_fee_rate <= MAX_PROTOCOL_FEE_RATE
        &&& MIN_TICK_SPACING <= self.tick_spacing <= MAX_TICK_SPACING
        &&& spec_pool_price_valid(self.sqrt_price as int)
        &&& spec_price_in_tick(self.sqrt_price as int, self.tick_current_index as int)
    }

    /// Tests whether the pool is well formed.
    pub fn is_well_formed(&self) -> (r: bool)
        ensures
            r == self.spec_wf(),
    {
        if !self.token_mint_a.precedes(&self.token_mint_b) {
            return false;
        }
        if self.fee_rate > MAX_FEE_RATE || self.protocol_fee_rate > MAX_PROTOCOL_FEE_RATE {
            return false;
        }
        if self.tick_spacing < MIN_TICK_SPACING || self.tick_spacing > MAX_TICK_SPACING {
            return false;
        }
        if self.sqrt_price < MIN_SQRT_PRICE || self.sqrt_price > MAX_SQRT_PRICE {
            return false;
        }
        if self.tick_current_index < MIN_TICK_INDEX - 1 || self.tick_current_index
            > MAX_TICK_INDEX {
            return false;
        }
        if self.tick_current_index >= MIN_TICK_INDEX && sqrt_price_near_tick(
            self.tick_current_index,
        ) > self.sqrt_price {
            return false;
        }
        self.sqrt_price <= sqrt_price_near_tick(self.tick_current_index + 1)
    }

    /// The growth accumulators of the three reward streams.
    pub open spec fn spec_reward_growths(&self) -> [u128; 3] {
        [
            self.reward_infos[0].growth_global_x64,
            self.reward_infos[1].growth_global_x64,
            self.reward_infos[2].growth_global_x64,
        ]
    }

    /// The growth accumulators of the three reward streams.
    pub fn reward_growths(&self) -> (r: [u128; NUM_REWARDS])
        ensures
            r == self.spec_reward_growths(),
    {
        let r = [
            self.reward_infos[0].growth_global_x64,
            self.reward_infos[1].growth_global_x64,
            self.reward_infos[2].growth_global_x64,
        ];
        assert(r =~= self.spec_reward_growths());
        r
    }
}

} // verus!
