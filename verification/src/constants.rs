use vstd::prelude::*;

verus! {

/// Largest tick index a pool can reference.
pub const MAX_TICK_INDEX: i32 = 443636;

/// Smallest tick index a pool can reference.
pub const MIN_TICK_INDEX: i32 = -443636;

/// Number of ticks held by one tick array.
pub const TICK_ARRAY_SIZE: usize = 88;

/// Largest fee rate, in hundredths of a basis point (1%).
pub const MAX_FEE_RATE: u16 = 10_000;

/// Largest protocol fee rate, in basis points of the collected fee (100%).
pub const MAX_PROTOCOL_FEE_RATE: u16 = 10_000;

/// Number of independent reward streams per pool.
pub const NUM_REWARDS: usize = 3;

/// Smallest square-root price a pool may hold (raw Q64.64 value).
pub const MIN_SQRT_PRICE: u128 = 1;

/// Largest square-root price a pool may hold (raw Q64.64 value).
pub const MAX_SQRT_PRICE: u128 = 18446744073709551615;

/// Smallest tick spacing.
pub const MIN_TICK_SPACING: u16 = 1;

/// Largest tick spacing.
pub const MAX_TICK_SPACING: u16 = 100;

/// Largest number of positions one bundle can hold.
pub const MAX_POSITIONS_PER_BUNDLE: usize = 100;

/// Smallest liquidity a tick may reference.
pub const MIN_LIQUIDITY_PER_TICK: u128 = 1;

} // verus!
