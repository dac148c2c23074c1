use vstd::prelude::*;
use crate::constants::{MIN_LIQUIDITY_PER_TICK, NUM_REWARDS};

verus! {

/// The accounting record of one tick.
#[derive(Clone, Copy, Debug, PartialEq, Eq)]
pub struct Tick {
    /// Whether any position uses this tick as a boundary.
    pub initialized: bool,
    /// Liquidity added to the pool when the price crosses this tick upward.
    pub liquidity_net: i128,
    /// Total liquidity of the positions that use this tick as a boundary.
    pub liquidity_gross: u128,
    /// Fee growth of asset A on the side of this tick away from the price.
    pub fee_growth_outside_a: u128,
    /// Fee growth of asset B on the side of this tick away from the price.
    pub fee_growth_outside_b: u128,
    /// Reward growth of each stream on the side away from the price.
    pub reward_growths_outside: [u128; NUM_REWARDS],
}

impl Tick {
    /// The record of a tick that no position uses.
    pub open spec fn spec_empty() -> Tick {
        Tick {
            initialized: false,
            liquidity_net: 0,
            liquidity_gross: 0,
            fee_growth_outside_a: 0,
            fee_growth_outside_b: 0,
            reward_growths_outside: [0u128, 0u128, 0u128],
        }
    }

    /// A tick is initialized exactly while at least the minimum liquidity
    /// refers to it, and holds nothing while it is not.
    pub open spec fn spec_wf(&self) -> bool {
        &&& self.initialized == (self.liquidity_gross >= MIN_LIQUIDITY_PER_TICK)
        &&& !self.initialized ==> *self == Tick::spec_empty()
    }

    /// Makes the record of a tick that no position uses.
    pub fn new() -> (r: Tick)
        ensures
            r == Tick::spec_empty(),
            r.spec_wf(),
    {
        let r = Tick {
            initialized: false,
            liquidity_net: 0,
            liquidity_gross: 0,
            fee_growth_outside_a: 0,
            fee_growth_outside_b: 0,
            reward_growths_outside: [0u128, 0u128, 0u128],
        };
        assert(r.reward_growths_outside =~= Tick::spec_empty().reward_growths_outside);
        r
    }
}

impl Default for Tick {
    fn default() -> (r: Tick)
        ensures
            r == Tick::spec_empty(),
    {
        Tick::new()
    }
}

} // verus!
