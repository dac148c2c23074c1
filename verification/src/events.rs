use vstd::prelude::*;
use crate::keys::Pubkey;
use crate::manager::liquidity_manager::LiquidityChange;
use crate::manager::swap_manager::SwapResult;
use crate::state::position::Position;
use crate::state::LockType;

verus! {

/// A pool was created.
#[derive(Clone, Copy, Debug, PartialEq, Eq)]
pub struct PoolCreatedEvent {
    pub pool_id: Pubkey,
    pub token_mint_a: Pubkey,
    pub token_mint_b: Pubkey,
    pub tick_spacing: u16,
    pub initial_sqrt_price: u128,
}

/// A position was opened.
#[derive(Clone, Copy, Debug, PartialEq, Eq)]
pub struct PositionCreatedEvent {
    pub position_id: Pubkey,
    pub pool_id: Pubkey,
    pub owner: Pubkey,
    pub tick_lower_index: i32,
    pub tick_upper_index: i32,
}

/// The liquidity of a position changed.
#[derive(Clone, Copy, Debug, PartialEq, Eq)]
pub struct LiquidityChangedEvent {
    pub position_id: Pubkey,
    pub liquidity_before: u128,
    pub liquidity_after: u128,
}

/// A swap was executed.
#[derive(Clone, Copy, Debug, PartialEq, Eq)]
pub struct SwapEvent {
    pub pool_id: Pubkey,
    pub amount_in: u64,
    pub amount_out: u64,
    pub fee_amount: u64,
    pub a_to_b: bool,
}

/// The fees of a position were collected.
#[derive(Clone, Copy, Debug, PartialEq, Eq)]
pub struct FeesCollectedEvent {
    pub position_id: Pubkey,
    pub fee_amount_a: u64,
    pub fee_amount_b: u64,
}

/// The protocol fees of a pool were collected.
#[derive(Clone, Copy, Debug, PartialEq, Eq)]
pub struct ProtocolFeesCollectedEvent {
    pub pool_id: Pubkey,
    pub protocol_fee_amount_a: u64,
    pub protocol_fee_amount_b: u64,
}

/// A reward stream was set up.
#[derive(Clone, Copy, Debug, PartialEq, Eq)]
pub struct RewardInitializedEvent {
    pub pool_id: Pubkey,
    pub reward_index: u8,
    pub reward_mint: Pubkey,
}

/// The emissions of a reward stream changed.
#[derive(Clone, Copy, Debug, PartialEq, Eq)]
pub struct RewardEmissionsChangedEvent {
    pub pool_id: Pubkey,
    pub reward_index: u8,
    pub emissions_per_second_x64: u128,
}

/// A reward of a position was collected.
#[derive(Clone, Copy, Debug, PartialEq, Eq)]
pub struct RewardCollectedEvent {
    pub position_id: Pubkey,
    pub reward_index: u8,
    pub reward_amount: u64,
}

/// A position was closed.
#[derive(Clone, Copy, Debug, PartialEq, Eq)]
pub struct PositionClosedEvent {
    pub position_id: Pubkey,
}

/// A tick array was created.
#[derive(Clone, Copy, Debug, PartialEq, Eq)]
pub struct TickArrayCreatedEvent {
    pub pool_id: Pubkey,
    pub start_tick_index: i32,
}

/// The fee rate of a pool changed.
#[derive(Clone, Copy, Debug, PartialEq, Eq)]
pub struct FeeRateChangedEvent {
    pub pool_id: Pubkey,
    pub fee_rate: u16,
}

/// The protocol fee rate of a pool changed.
#[derive(Clone, Copy, Debug, PartialEq, Eq)]
pub struct ProtocolFeeRateChangedEvent {
    pub pool_id: Pubkey,
    pub protocol_fee_rate: u16,
}

/// A position was locked.
#[derive(Clone, Copy, Debug, PartialEq, Eq)]
pub struct PositionLockEvent {
    pub position_id: Pubkey,
    pub lock_type: u8,
}

/// The range of a position was reset.
#[derive(Clone, Copy, Debug, PartialEq, Eq)]
pub struct PositionRangeResetEvent {
    pub position_id: Pubkey,
    pub tick_lower_index_before: i32,
    pub tick_upper_index_before: i32,
    pub tick_lower_index_after: i32,
    pub tick_upper_index_after: i32,
}

/// The record of a swap: what went in and out, the fee, the direction.
pub fn swap_event(pool_id: Pubkey, result: &SwapResult) -> (r: SwapEvent)
    ensures
        r.pool_id == pool_id,
        r.amount_in == result.amount_in,
        r.amount_out == result.amount_out,
        r.fee_amount == result.fee_amount,
        r.a_to_b == result.a_to_b,
{
    SwapEvent {
        pool_id,
        amount_in: result.amount_in,
        amount_out: result.amount_out,
        fee_amount: result.fee_amount,
        a_to_b: result.a_to_b,
    }
}

/// The record of a change of liquidity: the liquidity of the position
/// before and after.
pub fn liquidity_changed_event(position_id: Pubkey, change: &LiquidityChange) -> (r:
    LiquidityChangedEvent)
    ensures
        r.position_id == position_id,
        r.liquidity_before == change.liquidity_before,
        r.liquidity_after == change.liquidity_after,
{
    LiquidityChangedEvent {
        position_id,
        liquidity_before: change.liquidity_before,
        liquidity_after: change.liquidity_after,
    }
}

/// The record of the opening of a position.
pub fn position_created_event(position_id: Pubkey, owner: Pubkey, position: &Position) -> (r:
    PositionCreatedEvent)
    ensures
        r == (PositionCreatedEvent {
            position_id,
            pool_id: position.pool,
            owner,
            tick_lower_index: position.tick_lower_index,
            tick_upper_index: position.tick_upper_index,
        }),
{
    PositionCreatedEvent {
        position_id,
        pool_id: position.pool,
        owner,
        tick_lower_index: position.tick_lower_index,
        tick_upper_index: position.tick_upper_index,
    }
}

/// The record of a collection of fees.
pub fn fees_collected_event(position_id: Pubkey, fee_amount_a: u64, fee_amount_b: u64) -> (r:
    FeesCollectedEvent)
    ensures
        r == (FeesCollectedEvent { position_id, fee_amount_a, fee_amount_b }),
{
    FeesCollectedEvent { position_id, fee_amount_a, fee_amount_b }
}

/// The record of a collection of a reward.
pub fn reward_collected_event(position_id: Pubkey, reward_index: u8, reward_amount: u64) -> (r:
    RewardCollectedEvent)
    ensures
        r == (RewardCollectedEvent { position_id, reward_index, reward_amount }),
{
    RewardCollectedEvent { position_id, reward_index, reward_amount }
}

/// The record of the closing of a position.
pub fn position_closed_event(position_id: Pubkey) -> (r: PositionClosedEvent)
    ensures
        r == (PositionClosedEvent { position_id }),
{
    PositionClosedEvent { position_id }
}

/// The record of the locking of a position: the lock by its number.
pub fn position_lock_event(position_id: Pubkey, lock_type: LockType) -> (r: PositionLockEvent)
    ensures
        r == (PositionLockEvent { position_id, lock_type: lock_type.spec_code() }),
{
    PositionLockEvent { position_id, lock_type: lock_type.code() }
}

/// The record of a reset of the range of a position: the range before and
/// after.
pub fn position_range_reset_event(position_id: Pubkey, before: &Position, after: &Position) -> (r:
    PositionRangeResetEvent)
    ensures
        r == (PositionRangeResetEvent {
            position_id,
            tick_lower_index_before: before.tick_lower_index,
            tick_upper_index_before: before.tick_upper_index,
            tick_lower_index_after: after.tick_lower_index,
            tick_upper_index_after: after.tick_upper_index,
        }),
{
    PositionRangeResetEvent {
        position_id,
        tick_lower_index_before: before.tick_lower_index,
        tick_upper_index_before: before.tick_upper_index,
        tick_lower_index_after: after.tick_lower_index,
        tick_upper_index_after: after.tick_upper_index,
    }
}

} // verus!
