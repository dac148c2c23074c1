use vstd::prelude::*;
use crate::constants::MAX_POSITIONS_PER_BUNDLE;
use crate::errors::PoolError;
use crate::keys::Pubkey;
use crate::math::tick_math::spec_tick_valid;
use crate::manager::position_manager::{open_position, spec_open_position};
use crate::state::position::{BundledPosition, PositionBundle, PositionRewardInfo};

verus! {

/// Why an operation on a bundle is refused.
#[derive(Clone, Copy, Debug, PartialEq, Eq, Structural)]
pub enum BundleError {
    /// The index names no slot of the bundle.
    InvalidSlot,
    /// The slot holds a position already.
    SlotInUse,
    /// The slot holds no position.
    SlotEmpty,
    /// The position cannot be opened or closed.
    Position(PoolError),
}

/// Whether nothing is supplied to a bundled position and nothing owed.
pub open spec fn spec_bundled_is_empty(position: BundledPosition) -> bool {
    &&& position.liquidity == 0
    &&& position.fee_owed_a == 0
    &&& position.fee_owed_b == 0
    &&& position.reward_infos[0].amount_owed == 0
    &&& position.reward_infos[1].amount_owed == 0
    &&& position.reward_infos[2].amount_owed == 0
}

/// A bundled position that was just opened over a range.
pub open spec fn spec_new_bundled_position(
    pool: Pubkey,
    tick_lower_index: i32,
    tick_upper_index: i32,
) -> BundledPosition {
    BundledPosition {
        pool,
        tick_lower_index,
        tick_upper_index,
        liquidity: 0,
        fee_growth_checkpoint_a: 0,
        fee_growth_checkpoint_b: 0,
        fee_owed_a: 0,
        fee_owed_b: 0,
        reward_infos: [
            PositionRewardInfo::spec_empty(),
            PositionRewardInfo::spec_empty(),
            PositionRewardInfo::spec_empty(),
        ],
    }
}

/// Makes a bundle with `MAX_POSITIONS_PER_BUNDLE` slots, all empty.
pub fn new_bundle(bump: u8, position_bundle_mint: Pubkey) -> (r: PositionBundle)
    ensures
        r.bump == bump,
        r.position_bundle_mint == position_bundle_mint,
        r.positions@.len() == MAX_POSITIONS_PER_BUNDLE,
        forall|i: int| 0 <= i < MAX_POSITIONS_PER_BUNDLE ==> r.positions@[i] is None,
        r.spec_wf(),
{
    let mut positions: Vec<Option<BundledPosition>> = Vec::new();
    let mut i: usize = 0;
    while i < MAX_POSITIONS_PER_BUNDLE
        invariant
            0 <= i <= MAX_POSITIONS_PER_BUNDLE,
            positions@.len() == i,
            forall|j: int| 0 <= j < i ==> positions@[j] is None,
        decreases MAX_POSITIONS_PER_BUNDLE - i,
    {
        positions.push(None);
        i = i + 1;
    }
    PositionBundle { bump, position_bundle_mint, positions }
}

/// Opens a position in a slot of a bundle.
///
/// The index must name a slot, and the slot must be empty. The range is
/// held to what `open_position` asks of it. On a failure the bundle is
/// left as it is.
pub fn open_bundled_position(
    bundle: &mut PositionBundle,
    index: usize,
    pool: Pubkey,
    tick_lower_index: i32,
    tick_upper_index: i32,
    tick_spacing: u16,
) -> (r: Result<(), BundleError>)
    ensures
        match r {
            Ok(_) => {
                &&& index < old(bundle).positions@.len()
                &&& old(bundle).positions@[index as int] is None
                &&& tick_lower_index < tick_upper_index
                &&& spec_tick_valid(tick_lower_index as int, tick_spacing as int)
                &&& spec_tick_valid(tick_upper_index as int, tick_spacing as int)
                &&& final(bundle).positions@ == old(bundle).positions@.update(
                    index as int,
                    Some(spec_new_bundled_position(pool, tick_lower_index, tick_upper_index)),
                )
                &&& final(bundle).bump == old(bundle).bump
                &&& final(bundle).position_bundle_mint == old(bundle).position_bundle_mint
            },
            Err(e) => {
                &&& *final(bundle) == *old(bundle)
                &&& e == BundleError::InvalidSlot <==> index >= old(bundle).positions@.len()
                &&& e == BundleError::SlotInUse <==> index < old(bundle).positions@.len() && old(
                    bundle,
                ).positions@[index as int] is Some
                &&& index < old(bundle).positions@.len() && old(bundle).positions@[index as int]
                    is None ==> spec_open_position(
                    0,
                    pool,
                    pool,
                    tick_lower_index,
                    tick_upper_index,
                    tick_spacing,
                ) is Err && e == BundleError::Position(
                    spec_open_position(
                        0,
                        pool,
                        pool,
                        tick_lower_index,
                        tick_upper_index,
                        tick_spacing,
                    )->Err_0,
                )
            },
        },
{
    if index >= bundle.positions.len() {
        return Err(BundleError::InvalidSlot);
    }
    if bundle.positions[index].is_some() {
        return Err(BundleError::SlotInUse);
    }
    let opened = match open_position(
        0,
        pool,
        pool,
        tick_lower_index,
        tick_upper_index,
        tick_spacing,
    ) {
        Ok(p) => p,
        Err(e) => { return Err(BundleError::Position(e)); },
    };
    let position = BundledPosition {
        pool,
        tick_lower_index,
        tick_upper_index,
        liquidity: 0,
        fee_growth_checkpoint_a: 0,
        fee_growth_checkpoint_b: 0,
        fee_owed_a: 0,
        fee_owed_b: 0,
        reward_infos: opened.reward_infos,
    };
    bundle.positions[index] = Some(position);
    Ok(())
}

/// Closes the position in a slot of a bundle, leaving the slot empty.
///
/// The index must name a slot that holds a position, and nothing may be
/// supplied to the position or owed to it. On a failure the bundle is
/// left as it is.
pub fn close_bundled_position(bundle: &mut PositionBundle, index: usize) -> (r: Result<
    (),
    BundleError,
>)
    ensures
        match r {
            Ok(_) => {
                &&& index < old(bundle).positions@.len()
                &&& old(bundle).positions@[index as int] is Some
                &&& spec_bundled_is_empty(old(bundle).positions@[index as int].unwrap())
                &&& final(bundle).positions@ == old(bundle).positions@.update(index as int, None)
                &&& final(bundle).bump == old(bundle).bump
                &&& final(bundle).position_bundle_mint == old(bundle).position_bundle_mint
            },
            Err(e) => {
                &&& *final(bundle) == *old(bundle)
                &&& index >= old(bundle).positions@.len() ==> e == BundleError::InvalidSlot
                &&& index < old(bundle).positions@.len() && old(bundle).positions@[index as int]
                    is None ==> e == BundleError::SlotEmpty
                &&& index < old(bundle).positions@.len() && old(bundle).positions@[index as int]
                    is Some ==> e == BundleError::Position(PoolError::ClosePositionNotEmpty)
                    && !spec_bundled_is_empty(old(bundle).positions@[index as int].unwrap())
            },
        },
{
    if index >= bundle.positions.len() {
        return Err(BundleError::InvalidSlot);
    }
    let position: BundledPosition = match bundle.positions[index] {
        Some(p) => p,
        None => { return Err(BundleError::SlotEmpty); },
    };
    let empty: bool = position.liquidity == 0 && position.fee_owed_a == 0 && position.fee_owed_b
        == 0 && position.reward_infos[0].amount_owed == 0 && position.reward_infos[1].amount_owed
        == 0 && position.reward_infos[2].amount_owed == 0;
    if !empty {
        return Err(BundleError::Position(PoolError::ClosePositionNotEmpty));
    }
    bundle.positions[index] = None;
    Ok(())
}

} // verus!
