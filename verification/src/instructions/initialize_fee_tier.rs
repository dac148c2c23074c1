use vstd::prelude::*;
use crate::constants::{MAX_FEE_RATE, MAX_TICK_SPACING, MIN_TICK_SPACING};
use crate::errors::PoolError;
use crate::keys::Pubkey;
use crate::state::fee_tier::FeeTier;

verus! {

/// What `handler` returns.
pub open spec fn spec_initialize_fee_tier(
    bump: u8,
    config: Pubkey,
    tick_spacing: u16,
    default_fee_rate: u16,
) -> Result<FeeTier, PoolError> {
    if tick_spacing < MIN_TICK_SPACING || tick_spacing > MAX_TICK_SPACING {
        Err(PoolError::InvalidTickSpacing)
    } else if default_fee_rate > MAX_FEE_RATE {
        Err(PoolError::FeeRateMaxExceeded)
    } else {
        Ok(FeeTier { bump, config, tick_spacing, default_fee_rate })
    }
}

/// Makes the fee tier of a configuration for one tick spacing.
///
/// A spacing outside its limits is refused, and so is a default fee rate
/// above its maximum.
pub fn handler(bump: u8, config: Pubkey, tick_spacing: u16, default_fee_rate: u16) -> (r: Result<
    FeeTier,
    PoolError,
>)
    ensures
        r == spec_initialize_fee_tier(bump, config, tick_spacing, default_fee_rate),
        r is Ok ==> r.unwrap().spec_wf(),
{
    if tick_spacing < MIN_TICK_SPACING || tick_spacing > MAX_TICK_SPACING {
        return Err(PoolError::InvalidTickSpacing);
    }
    if default_fee_rate > MAX_FEE_RATE {
        return Err(PoolError::FeeRateMaxExceeded);
    }
    Ok(FeeTier { bump, config, tick_spacing, default_fee_rate })
}

} // verus!
