use vstd::prelude::*;
use crate::constants::MAX_PROTOCOL_FEE_RATE;
use crate::errors::PoolError;
use crate::keys::Pubkey;
use crate::state::config::PoolConfig;

verus! {

/// Makes the configuration that governs a set of pools.
///
/// A default protocol fee rate above its maximum is refused.
pub fn handler(
    bump: u8,
    fee_authority: Pubkey,
    collect_protocol_fees_authority: Pubkey,
    reward_emissions_super_authority: Pubkey,
    default_protocol_fee_rate: u16,
) -> (r: Result<PoolConfig, PoolError>)
    ensures
        default_protocol_fee_rate > MAX_PROTOCOL_FEE_RATE ==> r == Err::<PoolConfig, PoolError>(
            PoolError::ProtocolFeeRateMaxExceeded,
        ),
        default_protocol_fee_rate <= MAX_PROTOCOL_FEE_RATE ==> r == Ok::<PoolConfig, PoolError>(
            PoolConfig {
                bump,
                fee_authority,
                collect_protocol_fees_authority,
                reward_emissions_super_authority,
                default_protocol_fee_rate,
            },
        ) && r.unwrap().spec_wf(),
{
    if default_protocol_fee_rate > MAX_PROTOCOL_FEE_RATE {
        return Err(PoolError::ProtocolFeeRateMaxExceeded);
    }
    Ok(
        PoolConfig {
            bump,
            fee_authority,
            collect_protocol_fees_authority,
            reward_emissions_super_authority,
            default_protocol_fee_rate,
        },
    )
}

} // verus!
