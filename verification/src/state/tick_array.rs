use vstd::prelude::*;
use crate::constants::TICK_ARRAY_SIZE;
use crate::keys::Pubkey;
use crate::state::tick::Tick;

verus! {

/// A fixed-length block of consecutive tick records of one pool.
#[derive(Debug, PartialEq, Eq)]
pub struct TickArray {
    /// Bump of the address the array is stored under.
    pub bump: u8,
    /// The pool the array belongs to.
    pub pool: Pubkey,
    /// Index of the first tick of the array.
    pub start_tick_index: i32,
    /// The tick records, at distances of one tick spacing.
    pub ticks: Vec<Tick>,
}

impl TickArray {
    /// The array holds `TICK_ARRAY_SIZE` records and starts on a multiple
    /// of the span of one array.
    pub open spec fn spec_wf(&self, tick_spacing: int) -> bool {
        &&& tick_spacing > 0
        &&& self.ticks@.len() == TICK_ARRAY_SIZE
        &&& self.start_tick_index as int % (tick_spacing * TICK_ARRAY_SIZE as int) == 0
    }
}

} // verus!
