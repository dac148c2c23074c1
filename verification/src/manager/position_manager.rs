use vstd::prelude::*;
use crate::constants::NUM_REWARDS;
use crate::errors::PoolError;
use crate::keys::Pubkey;
use crate::math::growth_math::{lemma_wrapping_laws, spec_wrapping_sub, wrapping_sub};
use crate::math::tick_math::{spec_tick_valid, validate_tick_index};
use crate::state::position::{Position, PositionRewardInfo};
use crate::state::LockType;

verus! {

/// What a position earns on one accumulator since its checkpoint:
/// `floor(liquidity * (growth_inside - checkpoint) / 2^64)`, the
/// difference taken with wrap-around. `None` where the product does not
/// fit in 128 bits.
pub open spec fn spec_owed_delta(liquidity: u128, growth_inside: u128, checkpoint: u128) -> Option<
    int,
> {
    let growth = spec_wrapping_sub(growth_inside, checkpoint);
    if liquidity as int * growth as int > u128::MAX {
        None
    } else {
        Some((liquidity as int * growth as int) / 0x1_0000_0000_0000_0000)
    }
}

/// An owed balance after what was earned since the checkpoint is added;
/// an error where a step does not fit.
pub open spec fn spec_settle_owed(
    owed: u64,
    liquidity: u128,
    growth_inside: u128,
    checkpoint: u128,
) -> Result<u64, PoolError> {
    match spec_owed_delta(liquidity, growth_inside, checkpoint) {
        None => Err(PoolError::LiquidityOverflow),
        Some(delta) => if owed + delta > u64::MAX {
            Err(PoolError::LiquidityOverflow)
        } else {
            Ok((owed + delta) as u64)
        },
    }
}

/// One reward stream of a position after settlement.
pub open spec fn spec_settle_reward(
    info: PositionRewardInfo,
    liquidity: u128,
    growth_inside: u128,
) -> Result<PositionRewardInfo, PoolError> {
    match spec_settle_owed(
        info.amount_owed,
        liquidity,
        growth_inside,
        info.growth_inside_checkpoint,
    ) {
        Err(e) => Err(e),
        Ok(owed) => Ok(
            PositionRewardInfo { growth_inside_checkpoint: growth_inside, amount_owed: owed },
        ),
    }
}

/// A position after settlement: what each accumulator earned inside the
/// range since its checkpoint is added to the owed balance, and the
/// checkpoint moves up to the growth inside.
pub open spec fn spec_settle_position(
    position: Position,
    fee_growth_inside_a: u128,
    fee_growth_inside_b: u128,
    reward_growths_inside: [u128; 3],
) -> Result<Position, PoolError> {
    match spec_settle_owed(
        position.fee_owed_a,
        position.liquidity,
        fee_growth_inside_a,
        position.fee_growth_checkpoint_a,
    ) {
        Err(e) => Err(e),
        Ok(owed_a) => match spec_settle_owed(
            position.fee_owed_b,
            position.liquidity,
            fee_growth_inside_b,
            position.fee_growth_checkpoint_b,
        ) {
            Err(e) => Err(e),
            Ok(owed_b) => match spec_settle_reward(
                position.reward_infos[0],
                position.liquidity,
                reward_growths_inside[0],
            ) {
                Err(e) => Err(e),
                Ok(r0) => match spec_settle_reward(
                    position.reward_infos[1],
                    position.liquidity,
                    reward_growths_inside[1],
                ) {
                    Err(e) => Err(e),
                    Ok(r1) => match spec_settle_reward(
                        position.reward_infos[2],
                        position.liquidity,
                        reward_growths_inside[2],
                    ) {
                        Err(e) => Err(e),
                        Ok(r2) => Ok(
                            Position {
                                bump: position.bump,
                                pool: position.pool,
                                position_mint: position.position_mint,
                                tick_lower_index: position.tick_lower_index,
                                tick_upper_index: position.tick_upper_index,
                                liquidity: position.liquidity,
                                fee_growth_checkpoint_a: fee_growth_inside_a,
                                fee_growth_checkpoint_b: fee_growth_inside_b,
                                fee_owed_a: owed_a,
                                fee_owed_b: owed_b,
                                reward_infos: [r0, r1, r2],
                                lock_type: position.lock_type,
                            },
                        ),
                    },
                },
            },
        },
    }
}

/// A position after its owed fees are handed out, and the two amounts.
pub open spec fn spec_collect_fees(position: Position) -> (Position, u64, u64) {
    (
        Position {
            bump: position.bump,
            pool: position.pool,
            position_mint: position.position_mint,
            tick_lower_index: position.tick_lower_index,
            tick_upper_index: position.tick_upper_index,
            liquidity: position.liquidity,
            fee_growth_checkpoint_a: position.fee_growth_checkpoint_a,
            fee_growth_checkpoint_b: position.fee_growth_checkpoint_b,
            fee_owed_a: 0,
            fee_owed_b: 0,
            reward_infos: position.reward_infos,
            lock_type: position.lock_type,
        },
        position.fee_owed_a,
        position.fee_owed_b,
    )
}

/// The reward streams of a position after the owed amount of stream
/// `index` is handed out.
pub open spec fn spec_collected_rewards(infos: [PositionRewardInfo; 3], index: int) -> [PositionRewardInfo; 3] {
    [
        if index == 0 {
            PositionRewardInfo {
                growth_inside_checkpoint: infos[0].growth_inside_checkpoint,
                amount_owed: 0,
            }
        } else {
            infos[0]
        },
        if index == 1 {
            PositionRewardInfo {
                growth_inside_checkpoint: infos[1].growth_inside_checkpoint,
                amount_owed: 0,
            }
        } else {
            infos[1]
        },
        if index == 2 {
            PositionRewardInfo {
                growth_inside_checkpoint: infos[2].growth_inside_checkpoint,
                amount_owed: 0,
            }
        } else {
            infos[2]
        },
    ]
}

/// A position after the owed reward of stream `index` is handed out, and
/// the amount.
pub open spec fn spec_collect_reward(position: Position, index: int) -> (Position, u64)
    recommends
        0 <= index < 3,
{
    (
        Position {
            bump: position.bump,
            pool: position.pool,
            position_mint: position.position_mint,
            tick_lower_index: position.tick_lower_index,
            tick_upper_index: position.tick_upper_index,
            liquidity: position.liquidity,
            fee_growth_checkpoint_a: position.fee_growth_checkpoint_a,
            fee_growth_checkpoint_b: position.fee_growth_checkpoint_b,
            fee_owed_a: position.fee_owed_a,
            fee_owed_b: position.fee_owed_b,
            reward_infos: spec_collected_rewards(position.reward_infos, index),
            lock_type: position.lock_type,
        },
        position.reward_infos[index].amount_owed,
    )
}

/// A position that was just opened over a range: nothing supplied,
/// nothing owed, not locked.
pub open spec fn spec_new_position(
    bump: u8,
    pool: Pubkey,
    position_mint: Pubkey,
    tick_lower_index: i32,
    tick_upper_index: i32,
) -> Position {
    Position {
        bump,
        pool,
        position_mint,
        tick_lower_index,
        tick_upper_index,
        liquidity: 0,
        fee_growth_checkpoint_a: 0,
        fee_growth_checkpoint_b: 0,
        fee_owed_a: 0,
        fee_owed_b: 0,
        reward_infos: [
            PositionRewardInfo::spec_empty(),
            PositionRewardInfo::spec_empty(),
            PositionRewardInfo::spec_empty(),
        ],
        lock_type: LockType::Unlocked,
    }
}

/// What `open_position` returns for a range.
pub open spec fn spec_open_position(
    bump: u8,
    pool: Pubkey,
    position_mint: Pubkey,
    tick_lower_index: i32,
    tick_upper_index: i32,
    tick_spacing: u16,
) -> Result<Position, PoolError> {
    if tick_lower_index == tick_upper_index {
        Err(PoolError::SameTickRangeNotAllowed)
    } else if tick_spacing == 0 {
        Err(PoolError::InvalidTickSpacing)
    } else if tick_lower_index > tick_upper_index || !spec_tick_valid(
        tick_lower_index as int,
        tick_spacing as int,
    ) || !spec_tick_valid(tick_upper_index as int, tick_spacing as int) {
        Err(PoolError::InvalidTickIndex)
    } else {
        Ok(spec_new_position(bump, pool, position_mint, tick_lower_index, tick_upper_index))
    }
}

/// What closing a position gives: refused as not empty while anything is
/// supplied or owed, and as locked while a lock holds.
pub open spec fn spec_close_position(position: Position) -> Result<(), PoolError> {
    if !position.spec_is_empty() {
        Err(PoolError::ClosePositionNotEmpty)
    } else if position.lock_type != LockType::Unlocked {
        Err(PoolError::PositionAlreadyLocked)
    } else {
        Ok(())
    }
}

/// Settling a position twice against the same growth adds nothing the
/// second time.
pub proof fn lemma_settle_idempotent(
    position: Position,
    fee_growth_inside_a: u128,
    fee_growth_inside_b: u128,
    reward_growths_inside: [u128; 3],
)
    requires
        spec_settle_position(
            position,
            fee_growth_inside_a,
            fee_growth_inside_b,
            reward_growths_inside,
        ) is Ok,
    ensures
        spec_settle_position(
            spec_settle_position(
                position,
                fee_growth_inside_a,
                fee_growth_inside_b,
                reward_growths_inside,
            ).unwrap(),
            fee_growth_inside_a,
            fee_growth_inside_b,
            reward_growths_inside,
        ) == spec_settle_position(
            position,
            fee_growth_inside_a,
            fee_growth_inside_b,
            reward_growths_inside,
        ),
{
    let once = spec_settle_position(
        position,
        fee_growth_inside_a,
        fee_growth_inside_b,
        reward_growths_inside,
    ).unwrap();
    lemma_settled_owes_nothing_new(once.fee_owed_a, once.liquidity, fee_growth_inside_a);
    lemma_settled_owes_nothing_new(once.fee_owed_b, once.liquidity, fee_growth_inside_b);
    lemma_settled_owes_nothing_new(
        once.reward_infos[0].amount_owed,
        once.liquidity,
        reward_growths_inside[0],
    );
    lemma_settled_owes_nothing_new(
        once.reward_infos[1].amount_owed,
        once.liquidity,
        reward_growths_inside[1],
    );
    lemma_settled_owes_nothing_new(
        once.reward_infos[2].amount_owed,
        once.liquidity,
        reward_growths_inside[2],
    );
    let twice = spec_settle_position(
        once,
        fee_growth_inside_a,
        fee_growth_inside_b,
        reward_growths_inside,
    );
    assert(twice is Ok);
    assert(twice.unwrap().reward_infos =~= once.reward_infos);
}

/// With the checkpoint on the growth inside, nothing was earned since.
pub proof fn lemma_settled_owes_nothing_new(owed: u64, liquidity: u128, growth_inside: u128)
    ensures
        spec_owed_delta(liquidity, growth_inside, growth_inside) == Some(0int),
        spec_settle_owed(owed, liquidity, growth_inside, growth_inside) == Ok::<u64, PoolError>(
            owed,
        ),
{
    lemma_wrapping_laws(growth_inside, 0);
    assert(spec_wrapping_sub(growth_inside, growth_inside) == 0);
    assert(liquidity as int * 0 == 0);
}

/// Collecting the reward of a stream a second time, with nothing settled
/// in between, hands out nothing and leaves the position as it is.
pub proof fn lemma_collect_reward_twice(position: Position, index: int)
    requires
        0 <= index < 3,
    ensures
        spec_collect_reward(spec_collect_reward(position, index).0, index).1 == 0,
        spec_collect_reward(spec_collect_reward(position, index).0, index).0
            == spec_collect_reward(position, index).0,
{
    let once = spec_collect_reward(position, index).0;
    let twice = spec_collect_reward(once, index).0;
    assert(twice.reward_infos =~= once.reward_infos);
}

/// Collecting fees a second time, with nothing settled in between, hands
/// out nothing.
pub proof fn lemma_collect_fees_twice(position: Position)
    ensures
        spec_collect_fees(spec_collect_fees(position).0).1 == 0,
        spec_collect_fees(spec_collect_fees(position).0).2 == 0,
        spec_collect_fees(spec_collect_fees(position).0).0 == spec_collect_fees(position).0,
{
}

/// A position with liquidity cannot be closed.
pub proof fn lemma_close_needs_empty(position: Position)
    ensures
        position.liquidity != 0 ==> spec_close_position(position) == Err::<(), PoolError>(
            PoolError::ClosePositionNotEmpty,
        ),
        spec_close_position(position) is Ok ==> position.spec_is_empty() && position.lock_type
            == LockType::Unlocked,
{
}

/// Adds to an owed balance what was earned since the checkpoint.
pub fn settle_owed(owed: u64, liquidity: u128, growth_inside: u128, checkpoint: u128) -> (r:
    Result<u64, PoolError>)
    ensures
        r == spec_settle_owed(owed, liquidity, growth_inside, checkpoint),
{
    let growth: u128 = wrapping_sub(growth_inside, checkpoint);
    let product: u128 = match liquidity.checked_mul(growth) {
        Some(p) => p,
        None => { return Err(PoolError::LiquidityOverflow); },
    };
    let delta: u128 = product / 0x1_0000_0000_0000_0000u128;
    if delta > 0xffff_ffff_ffff_ffffu128 - (owed as u128) {
        return Err(PoolError::LiquidityOverflow);
    }
    Ok((owed as u128 + delta) as u64)
}

/// Settles one reward stream of a position.
pub fn settle_reward(info: &PositionRewardInfo, liquidity: u128, growth_inside: u128) -> (r:
    Result<PositionRewardInfo, PoolError>)
    ensures
        r == spec_settle_reward(*info, liquidity, growth_inside),
{
    match settle_owed(info.amount_owed, liquidity, growth_inside, info.growth_inside_checkpoint) {
        Ok(owed) => Ok(
            PositionRewardInfo { growth_inside_checkpoint: growth_inside, amount_owed: owed },
        ),
        Err(e) => Err(e),
    }
}

/// Settles a position against the growth inside its range: what it earned
/// since its checkpoints goes to its owed balances, and the checkpoints
/// move up. The position given is not changed.
pub fn settle_position(
    position: &Position,
    fee_growth_inside_a: u128,
    fee_growth_inside_b: u128,
    reward_growths_inside: &[u128; NUM_REWARDS],
) -> (r: Result<Position, PoolError>)
    ensures
        r == spec_settle_position(
            *position,
            fee_growth_inside_a,
            fee_growth_inside_b,
            *reward_growths_inside,
        ),
{
    let owed_a = match settle_owed(
        position.fee_owed_a,
        position.liquidity,
        fee_growth_inside_a,
        position.fee_growth_checkpoint_a,
    ) {
        Ok(v) => v,
        Err(e) => { return Err(e); },
    };
    let owed_b = match settle_owed(
        position.fee_owed_b,
        position.liquidity,
        fee_growth_inside_b,
        position.fee_growth_checkpoint_b,
    ) {
        Ok(v) => v,
        Err(e) => { return Err(e); },
    };
    let r0 = match settle_reward(
        &position.reward_infos[0],
        position.liquidity,
        reward_growths_inside[0],
    ) {
        Ok(v) => v,
        Err(e) => { return Err(e); },
    };
    let r1 = match settle_reward(
        &position.reward_infos[1],
        position.liquidity,
        reward_growths_inside[1],
    ) {
        Ok(v) => v,
        Err(e) => { return Err(e); },
    };
    let r2 = match settle_reward(
        &position.reward_infos[2],
        position.liquidity,
        reward_growths_inside[2],
    ) {
        Ok(v) => v,
        Err(e) => { return Err(e); },
    };
    let infos = [r0, r1, r2];
    assert(infos =~= [r0, r1, r2]);
    Ok(
        Position {
            bump: position.bump,
            pool: position.pool,
            position_mint: position.position_mint,
            tick_lower_index: position.tick_lower_index,
            tick_upper_index: position.tick_upper_index,
            liquidity: position.liquidity,
            fee_growth_checkpoint_a: fee_growth_inside_a,
            fee_growth_checkpoint_b: fee_growth_inside_b,
            fee_owed_a: owed_a,
            fee_owed_b: owed_b,
            reward_infos: infos,
            lock_type: position.lock_type,
        },
    )
}

/// Opens a position over a tick range of a pool.
///
/// A range whose two bounds are the same tick is refused as such. A range
/// whose lower bound is above its upper bound, or a bound that is not a
/// multiple of the spacing or lies outside the tick bounds, is refused as
/// an invalid tick index.
pub fn open_position(
    bump: u8,
    pool: Pubkey,
    position_mint: Pubkey,
    tick_lower_index: i32,
    tick_upper_index: i32,
    tick_spacing: u16,
) -> (r: Result<Position, PoolError>)
    ensures
        r == spec_open_position(
            bump,
            pool,
            position_mint,
            tick_lower_index,
            tick_upper_index,
            tick_spacing,
        ),
        r is Ok ==> r.unwrap().spec_wf(tick_spacing as int) && r.unwrap().spec_is_empty(),
        tick_lower_index == tick_upper_index ==> r == Err::<Position, PoolError>(
            PoolError::SameTickRangeNotAllowed,
        ),
{
    if tick_lower_index == tick_upper_index {
        return Err(PoolError::SameTickRangeNotAllowed);
    }
    if tick_spacing == 0 {
        return Err(PoolError::InvalidTickSpacing);
    }
    if tick_lower_index > tick_upper_index {
        return Err(PoolError::InvalidTickIndex);
    }
    match validate_tick_index(tick_lower_index, tick_spacing) {
        Ok(_) => {},
        Err(e) => { return Err(PoolError::InvalidTickIndex); },
    }
    match validate_tick_index(tick_upper_index, tick_spacing) {
        Ok(_) => {},
        Err(e) => { return Err(PoolError::InvalidTickIndex); },
    }
    let empty = PositionRewardInfo { growth_inside_checkpoint: 0, amount_owed: 0 };
    let infos = [empty, empty, empty];
    assert(infos =~= [
        PositionRewardInfo::spec_empty(),
        PositionRewardInfo::spec_empty(),
        PositionRewardInfo::spec_empty(),
    ]);
    Ok(
        Position {
            bump,
            pool,
            position_mint,
            tick_lower_index,
            tick_upper_index,
            liquidity: 0,
            fee_growth_checkpoint_a: 0,
            fee_growth_checkpoint_b: 0,
            fee_owed_a: 0,
            fee_owed_b: 0,
            reward_infos: infos,
            lock_type: LockType::Unlocked,
        },
    )
}

/// Tests whether nothing is supplied to a position and nothing owed to it.
pub fn is_position_empty(position: &Position) -> (r: bool)
    ensures
        r == position.spec_is_empty(),
{
    position.liquidity == 0 && position.fee_owed_a == 0 && position.fee_owed_b == 0
        && position.reward_infos[0].amount_owed == 0 && position.reward_infos[1].amount_owed == 0
        && position.reward_infos[2].amount_owed == 0
}

/// Decides whether a position can be closed.
///
/// While liquidity is supplied, or fees or rewards are owed, it cannot:
/// the position is not empty. An empty position under a lock cannot be
/// closed either.
pub fn close_position(position: &Position) -> (r: Result<(), PoolError>)
    ensures
        r == spec_close_position(*position),
        position.liquidity != 0 ==> r == Err::<(), PoolError>(PoolError::ClosePositionNotEmpty),
{
    if !is_position_empty(position) {
        return Err(PoolError::ClosePositionNotEmpty);
    }
    match position.lock_type {
        LockType::Unlocked => Ok(()),
        _ => Err(PoolError::PositionAlreadyLocked),
    }
}

/// Hands out the fees owed to a position: returns the two amounts and
/// leaves nothing owed.
pub fn collect_fees(position: &mut Position) -> (r: (u64, u64))
    ensures
        *final(position) == spec_collect_fees(*old(position)).0,
        r.0 == old(position).fee_owed_a,
        r.1 == old(position).fee_owed_b,
        final(position).fee_owed_a == 0,
        final(position).fee_owed_b == 0,
{
    let amounts = (position.fee_owed_a, position.fee_owed_b);
    position.fee_owed_a = 0;
    position.fee_owed_b = 0;
    amounts
}

/// Hands out the reward of one stream owed to a position: returns the
/// amount and leaves nothing owed on that stream. An index that names no
/// stream is refused, and the position is then left as it is.
pub fn collect_reward(position: &mut Position, reward_index: usize) -> (r: Result<u64, PoolError>)
    ensures
        reward_index < NUM_REWARDS ==> r == Ok::<u64, PoolError>(
            spec_collect_reward(*old(position), reward_index as int).1,
        ) && *final(position) == spec_collect_reward(*old(position), reward_index as int).0
            && final(position).reward_infos[reward_index as int].amount_owed == 0,
        reward_index >= NUM_REWARDS ==> r == Err::<u64, PoolError>(PoolError::InvalidRewardIndex)
            && *final(position) == *old(position),
{
    if reward_index >= NUM_REWARDS {
        return Err(PoolError::InvalidRewardIndex);
    }
    let amount: u64 = position.reward_infos[reward_index].amount_owed;
    let checkpoint: u128 = position.reward_infos[reward_index].growth_inside_checkpoint;
    position.reward_infos[reward_index] = PositionRewardInfo {
        growth_inside_checkpoint: checkpoint,
        amount_owed: 0,
    };
    assert(position.reward_infos =~= spec_collected_rewards(
        old(position).reward_infos,
        reward_index as int,
    ));
    Ok(amount)
}

/// What locking a position gives.
pub open spec fn spec_lock_position(position: Position, lock_type: LockType) -> Result<
    Position,
    PoolError,
> {
    if lock_type == LockType::Unlocked || position.liquidity == 0 {
        Err(PoolError::PositionNotLockable)
    } else if position.lock_type != LockType::Unlocked {
        Err(PoolError::PositionAlreadyLocked)
    } else {
        Ok(
            Position {
                bump: position.bump,
                pool: position.pool,
                position_mint: position.position_mint,
                tick_lower_index: position.tick_lower_index,
                tick_upper_index: position.tick_upper_index,
                liquidity: position.liquidity,
                fee_growth_checkpoint_a: position.fee_growth_checkpoint_a,
                fee_growth_checkpoint_b: position.fee_growth_checkpoint_b,
                fee_owed_a: position.fee_owed_a,
                fee_owed_b: position.fee_owed_b,
                reward_infos: position.reward_infos,
                lock_type,
            },
        )
    }
}

/// Locks a position, for a time or for good.
///
/// A position without liquidity cannot be locked, nor can a lock of the
/// kind "unlocked" be asked for; a position that is locked already stays
/// as it is. On a failure the position is left unchanged.
pub fn lock_position(position: &mut Position, lock_type: LockType) -> (r: Result<(), PoolError>)
    ensures
        match spec_lock_position(*old(position), lock_type) {
            Ok(p) => r == Ok::<(), PoolError>(()) && *final(position) == p,
            Err(e) => r == Err::<(), PoolError>(e) && *final(position) == *old(position),
        },
{
    match lock_type {
        LockType::Unlocked => { return Err(PoolError::PositionNotLockable); },
        _ => {},
    }
    if position.liquidity == 0 {
        return Err(PoolError::PositionNotLockable);
    }
    match position.lock_type {
        LockType::Unlocked => {},
        _ => { return Err(PoolError::PositionAlreadyLocked); },
    }
    position.lock_type = lock_type;
    Ok(())
}

/// Lifts a temporary lock once its condition is met.
///
/// Returns whether the position is unlocked afterwards. A permanent lock
/// is never lifted, and a temporary one only when `condition_met` is set.
pub fn unlock_position(position: &mut Position, condition_met: bool) -> (r: bool)
    ensures
        r == (final(position).lock_type == LockType::Unlocked),
        *final(position) == (Position {
            lock_type: if old(position).lock_type == LockType::Temporary && condition_met {
                LockType::Unlocked
            } else {
                old(position).lock_type
            },
            ..*old(position)
        }),
{
    match position.lock_type {
        LockType::Unlocked => true,
        LockType::Permanent => false,
        LockType::Temporary => {
            if condition_met {
                position.lock_type = LockType::Unlocked;
                true
            } else {
                false
            }
        },
    }
}

/// What resetting the range of a position gives: refused while anything
/// is supplied or owed, refused under a lock, and else a position that
/// was just opened over the new range, if that range can be opened.
pub open spec fn spec_reset_position_range(
    position: Position,
    tick_lower_index: i32,
    tick_upper_index: i32,
    tick_spacing: u16,
) -> Result<Position, PoolError> {
    if !position.spec_is_empty() {
        Err(PoolError::ClosePositionNotEmpty)
    } else if position.lock_type != LockType::Unlocked {
        Err(PoolError::PositionAlreadyLocked)
    } else {
        spec_open_position(
            position.bump,
            position.pool,
            position.position_mint,
            tick_lower_index,
            tick_upper_index,
            tick_spacing,
        )
    }
}

/// Moves an empty position to a new range.
///
/// The position must hold no liquidity and be owed nothing, and must not
/// be locked. The new range is held to what `open_position` asks. On a
/// failure the position is left as it is.
pub fn reset_position_range(
    position: &mut Position,
    tick_lower_index: i32,
    tick_upper_index: i32,
    tick_spacing: u16,
) -> (r: Result<(), PoolError>)
    ensures
        match spec_reset_position_range(
            *old(position),
            tick_lower_index,
            tick_upper_index,
            tick_spacing,
        ) {
            Ok(p) => r == Ok::<(), PoolError>(()) && *final(position) == p && final(position).spec_wf(tick_spacing as int),
            Err(e) => r == Err::<(), PoolError>(e) && *final(position) == *old(position),
        },
{
    match close_position(position) {
        Ok(_) => {},
        Err(e) => { return Err(e); },
    }
    let moved = match open_position(
        position.bump,
        position.pool,
        position.position_mint,
        tick_lower_index,
        tick_upper_index,
        tick_spacing,
    ) {
        Ok(p) => p,
        Err(e) => { return Err(e); },
    };
    *position = moved;
    Ok(())
}

} // verus!
