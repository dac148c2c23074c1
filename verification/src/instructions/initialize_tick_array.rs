use vstd::prelude::*;
use crate::constants::TICK_ARRAY_SIZE;
use crate::errors::PoolError;
use crate::events::TickArrayCreatedEvent;
use crate::keys::Pubkey;
use crate::state::pool::Pool;
use crate::state::tick::Tick;
use crate::state::tick_array::TickArray;

verus! {

/// Makes a tick array of a pool, with every record empty, and the record
/// of its creation.
///
/// The start must be a multiple of the span of one array, the spacing of
/// the pool times `TICK_ARRAY_SIZE`; any other start is refused as an
/// invalid tick index.
pub fn handler(bump: u8, pool_id: Pubkey, pool: &Pool, start_tick_index: i32) -> (r: Result<
    (TickArray, TickArrayCreatedEvent),
    PoolError,
>)
    ensures
        match r {
            Ok((array, event)) => {
                &&& pool.tick_spacing > 0
                &&& start_tick_index as int % (pool.tick_spacing as int * TICK_ARRAY_SIZE as int)
                    == 0
                &&& array.spec_wf(pool.tick_spacing as int)
                &&& array.bump == bump
                &&& array.pool == pool_id
                &&& array.start_tick_index == start_tick_index
                &&& forall|k: int|
                    0 <= k < TICK_ARRAY_SIZE ==> array.ticks@[k] == Tick::spec_empty()
                &&& event == (TickArrayCreatedEvent { pool_id, start_tick_index })
            },
            Err(e) => {
                &&& pool.tick_spacing == 0 ==> e == PoolError::InvalidTickSpacing
                &&& pool.tick_spacing > 0 ==> e == PoolError::InvalidTickIndex
                    && start_tick_index as int % (pool.tick_spacing as int
                    * TICK_ARRAY_SIZE as int) != 0
            },
        },
{
    match TickArray::new(bump, pool_id, start_tick_index, pool.tick_spacing) {
        Ok(array) => Ok((array, TickArrayCreatedEvent { pool_id, start_tick_index })),
        Err(e) => Err(e),
    }
}

} // verus!
