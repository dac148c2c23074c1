use vstd::prelude::*;
use crate::constants::{MAX_FEE_RATE, MAX_TICK_SPACING, MIN_TICK_SPACING};
use crate::keys::Pubkey;

verus! {

/// The default fee rate offered to pools of one tick spacing.
#[derive(Clone, Copy, Debug, PartialEq, Eq)]
pub struct FeeTier {
    /// Bump of the address the record is stored under.
    pub bump: u8,
    /// The configuration the tier belongs to.
    pub config: Pubkey,
    /// The tick spacing the tier is for.
    pub tick_spacing: u16,
    /// Fee rate that pools of this tier start with, in hundredths of a
    /// basis point.
    pub default_fee_rate: u16,
}

impl FeeTier {
    /// Spacing and rate are within their limits.
    pub open spec fn spec_wf(&self) -> bool {
        &&& MIN_TICK_SPACING <= self.tick_spacing <= MAX_TICK_SPACING
        &&& self.default_fee_rate <= MAX_FEE_RATE
    }
}

} // verus!
