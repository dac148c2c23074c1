use vstd::prelude::*;

pub mod config;
pub mod fee_tier;
pub mod pool;
pub mod position;
pub mod tick;
pub mod tick_array;

pub use config::PoolConfig;
pub use fee_tier::FeeTier;
pub use pool::{Pool, RewardInfo};
pub use position::{BundledPosition, Position, PositionBundle, PositionRewardInfo};
pub use tick::Tick;
pub use tick_array::TickArray;

verus! {

/// Bump of a pool's address.
#[derive(Clone, Copy, Debug, PartialEq, Eq)]
pub struct WhirlpoolBumps {
    pub pool_bump: u8,
}

/// Bump of a position's address.
#[derive(Clone, Copy, Debug, PartialEq, Eq)]
pub struct OpenPositionBumps {
    pub position_bump: u8,
}

/// Bumps of a position's address and of its metadata.
#[derive(Clone, Copy, Debug, PartialEq, Eq)]
pub struct OpenPositionWithMetadataBumps {
    pub position_bump: u8,
    pub metadata_bump: u8,
}

/// How a position is locked.
#[derive(Clone, Copy, Debug, PartialEq, Eq, Structural)]
pub enum LockType {
    /// Not locked.
    Unlocked,
    /// Locked until the condition of the lock is met.
    Temporary,
    /// Locked for good.
    Permanent,
}

impl LockType {
    /// The number that stands for the lock in event records.
    pub open spec fn spec_code(self) -> u8 {
        match self {
            LockType::Unlocked => 0,
            LockType::Temporary => 1,
            LockType::Permanent => 2,
        }
    }

    /// The number that stands for the lock in event records.
    pub fn code(&self) -> (r: u8)
        ensures
            r == self.spec_code(),
    {
        match self {
            LockType::Unlocked => 0,
            LockType::Temporary => 1,
            LockType::Permanent => 2,
        }
    }
}

impl Default for LockType {
    fn default() -> (r: LockType)
        ensures
            r == LockType::Unlocked,
    {
        LockType::Unlocked
    }
}

} // verus!
