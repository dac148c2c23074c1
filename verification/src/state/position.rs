use vstd::prelude::*;
use crate::constants::{MAX_POSITIONS_PER_BUNDLE, NUM_REWARDS};
use crate::keys::Pubkey;
use crate::math::tick_math::spec_tick_valid;
use crate::state::LockType;

verus! {

/// What a position has of one reward stream.
#[derive(Clone, Copy, Debug, PartialEq, Eq)]
pub struct PositionRewardInfo {
    /// Growth inside the range when the position was last settled.
    pub growth_inside_checkpoint: u128,
    /// Reward owed to the position and not yet collected.
    pub amount_owed: u64,
}

/// Liquidity that one owner supplies over one tick range.
#[derive(Clone, Copy, Debug, PartialEq, Eq)]
pub struct Position {
    /// Bump of the address the position is stored under.
    pub bump: u8,
    /// The pool the position belongs to.
    pub pool: Pubkey,
    /// The asset whose holder owns the position.
    pub position_mint: Pubkey,
    /// Lower bound of the range.
    pub tick_lower_index: i32,
    /// Upper bound of the range.
    pub tick_upper_index: i32,
    /// Liquidity supplied.
    pub liquidity: u128,
    /// Fee growth of asset A inside the range at the last settlement.
    pub fee_growth_checkpoint_a: u128,
    /// Fee growth of asset B inside the range at the last settlement.
    pub fee_growth_checkpoint_b: u128,
    /// Fees of asset A owed and not yet collected.
    pub fee_owed_a: u64,
    /// Fees of asset B owed and not yet collected.
    pub fee_owed_b: u64,
    /// Checkpoint and owed amount of each reward stream.
    pub reward_infos: [PositionRewardInfo; NUM_REWARDS],
    /// Whether, and how, the position is locked.
    pub lock_type: LockType,
}

/// A position held in a slot of a bundle.
#[derive(Clone, Copy, Debug, PartialEq, Eq)]
pub struct BundledPosition {
    /// The pool the position belongs to.
    pub pool: Pubkey,
    /// Lower bound of the range.
    pub tick_lower_index: i32,
    /// Upper bound of the range.
    pub tick_upper_index: i32,
    /// Liquidity supplied.
    pub liquidity: u128,
    /// Fee growth of asset A inside the range at the last settlement.
    pub fee_growth_checkpoint_a: u128,
    /// Fee growth of asset B inside the range at the last settlement.
    pub fee_growth_checkpoint_b: u128,
    /// Fees of asset A owed and not yet collected.
    pub fee_owed_a: u64,
    /// Fees of asset B owed and not yet collected.
    pub fee_owed_b: u64,
    /// Checkpoint and owed amount of each reward stream.
    pub reward_infos: [PositionRewardInfo; NUM_REWARDS],
}

/// Up to `MAX_POSITIONS_PER_BUNDLE` positions under one owner, each in a
/// slot of its own that may be empty.
#[derive(Debug, PartialEq, Eq)]
pub struct PositionBundle {
    /// Bump of the address the bundle is stored under.
    pub bump: u8,
    /// The asset whose holder owns the bundle.
    pub position_bundle_mint: Pubkey,
    /// The slots.
    pub positions: Vec<Option<BundledPosition>>,
}

impl PositionRewardInfo {
    /// Nothing owed, checkpoint at zero.
    pub open spec fn spec_empty() -> PositionRewardInfo {
        PositionRewardInfo { growth_inside_checkpoint: 0, amount_owed: 0 }
    }
}

impl Position {
    /// The range is proper and both bounds are usable ticks of the pool.
    pub open spec fn spec_wf(&self, tick_spacing: int) -> bool {
        &&& self.tick_lower_index < self.tick_upper_index
        &&& spec_tick_valid(self.tick_lower_index as int, tick_spacing)
        &&& spec_tick_valid(self.tick_upper_index as int, tick_spacing)
    }

    /// Nothing is supplied and nothing is owed.
    pub open spec fn spec_is_empty(&self) -> bool {
        &&& self.liquidity == 0
        &&& self.fee_owed_a == 0
        &&& self.fee_owed_b == 0
        &&& self.reward_infos[0].amount_owed == 0
        &&& self.reward_infos[1].amount_owed == 0
        &&& self.reward_infos[2].amount_owed == 0
    }

    /// Whether the range holds the tick: the lower bound is inside, the
    /// upper bound is not.
    pub open spec fn spec_in_range(&self, tick: int) -> bool {
        self.tick_lower_index <= tick < self.tick_upper_index
    }
}

impl PositionBundle {
    /// The bundle has no more slots than it may.
    pub open spec fn spec_wf(&self) -> bool {
        self.positions@.len() <= MAX_POSITIONS_PER_BUNDLE
    }
}

} // verus!
