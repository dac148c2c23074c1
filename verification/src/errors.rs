use vstd::prelude::*;

verus! {

/// Every way an operation on a pool can be refused.
#[derive(Clone, Copy, Debug, PartialEq, Eq, Structural)]
pub enum PoolError {
    InvalidTokenMintOrder,
    SqrtPriceOutOfBounds,
    LiquidityZero,
    LiquidityTooHigh,
    TokenMaxExceeded,
    TokenMinSubceeded,
    InvalidTickIndex,
    InvalidTickSpacing,
    FeeRateMaxExceeded,
    ProtocolFeeRateMaxExceeded,
    ClosePositionNotEmpty,
    ZeroTradableAmount,
    InvalidSqrtPriceLimitDirection,
    InvalidTickArraySequence,
    TickArraySequenceInvalidIndex,
    TickArrayIndexOutOfBounds,
    LiquidityOverflow,
    InvalidRewardIndex,
    RewardVaultAmountInsufficient,
    InvalidTimestamp,
    PositionAlreadyLocked,
    PositionNotLockable,
    SameTickRangeNotAllowed,
}

impl PoolError {
    /// The text of each error, as a sequence of characters.
    pub open spec fn spec_message(self) -> Seq<char> {
        match self {
            PoolError::InvalidTokenMintOrder => "Invalid token mint order"@,
            PoolError::SqrtPriceOutOfBounds => "Square root price out of bounds"@,
            PoolError::LiquidityZero => "Liquidity amount must be greater than zero"@,
            PoolError::LiquidityTooHigh => "Liquidity amount too high"@,
            PoolError::TokenMaxExceeded => "Token maximum exceeded"@,
            PoolError::TokenMinSubceeded => "Token minimum not met"@,
            PoolError::InvalidTickIndex => "Invalid tick index"@,
            PoolError::InvalidTickSpacing => "Invalid tick spacing"@,
            PoolError::FeeRateMaxExceeded => "Invalid fee rate"@,
            PoolError::ProtocolFeeRateMaxExceeded => "Invalid protocol fee rate"@,
            PoolError::ClosePositionNotEmpty => "Position not empty"@,
            PoolError::ZeroTradableAmount => "Zero tradable amount"@,
            PoolError::InvalidSqrtPriceLimitDirection => "Invalid sqrt price limit direction"@,
            PoolError::InvalidTickArraySequence => "Invalid tick array sequence"@,
            PoolError::TickArraySequenceInvalidIndex => "Tick array sequence invalid index"@,
            PoolError::TickArrayIndexOutOfBounds => "Tick array index out of bounds"@,
            PoolError::LiquidityOverflow => "Liquidity overflow"@,
            PoolError::InvalidRewardIndex => "Invalid reward index"@,
            PoolError::RewardVaultAmountInsufficient => "Reward vault amount insufficient"@,
            PoolError::InvalidTimestamp => "Invalid timestamp"@,
            PoolError::PositionAlreadyLocked => "Position already locked"@,
            PoolError::PositionNotLockable => "Position not lockable"@,
            PoolError::SameTickRangeNotAllowed => "Same tick range not allowed"@,
        }
    }

    /// The human-readable text attached to each error.
    pub fn message(&self) -> (text: &'static str)
        ensures
            text@ == self.spec_message(),
    {
        let text = match self {
            PoolError::InvalidTokenMintOrder => "Invalid token mint order",
            PoolError::SqrtPriceOutOfBounds => "Square root price out of bounds",
            PoolError::LiquidityZero => "Liquidity amount must be greater than zero",
            PoolError::LiquidityTooHigh => "Liquidity amount too high",
            PoolError::TokenMaxExceeded => "Token maximum exceeded",
            PoolError::TokenMinSubceeded => "Token minimum not met",
            PoolError::InvalidTickIndex => "Invalid tick index",
            PoolError::InvalidTickSpacing => "Invalid tick spacing",
            PoolError::FeeRateMaxExceeded => "Invalid fee rate",
            PoolError::ProtocolFeeRateMaxExceeded => "Invalid protocol fee rate",
            PoolError::ClosePositionNotEmpty => "Position not empty",
            PoolError::ZeroTradableAmount => "Zero tradable amount",
            PoolError::InvalidSqrtPriceLimitDirection => "Invalid sqrt price limit direction",
            PoolError::InvalidTickArraySequence => "Invalid tick array sequence",
            PoolError::TickArraySequenceInvalidIndex => "Tick array sequence invalid index",
            PoolError::TickArrayIndexOutOfBounds => "Tick array index out of bounds",
            PoolError::LiquidityOverflow => "Liquidity overflow",
            PoolError::InvalidRewardIndex => "Invalid reward index",
            PoolError::RewardVaultAmountInsufficient => "Reward vault amount insufficient",
            PoolError::InvalidTimestamp => "Invalid timestamp",
            PoolError::PositionAlreadyLocked => "Position already locked",
            PoolError::PositionNotLockable => "Position not lockable",
            PoolError::SameTickRangeNotAllowed => "Same tick range not allowed",
        };
        text
    }
}

} // verus!
