use vstd::prelude::*;
use crate::constants::MAX_PROTOCOL_FEE_RATE;
use crate::keys::Pubkey;

verus! {

/// Authorities and defaults that govern a set of pools.
#[derive(Clone, Copy, Debug, PartialEq, Eq)]
pub struct PoolConfig {
    /// Bump of the address the record is stored under.
    pub bump: u8,
    /// Who may set fees.
    pub fee_authority: Pubkey,
    /// Who may collect protocol fees.
    pub collect_protocol_fees_authority: Pubkey,
    /// Who may name the reward authorities of a pool.
    pub reward_emissions_super_authority: Pubkey,
    /// Protocol fee rate that new pools start with, in basis points.
    pub default_protocol_fee_rate: u16,
}

impl PoolConfig {
    /// The default protocol fee rate is within its maximum.
    pub open spec fn spec_wf(&self) -> bool {
        self.default_protocol_fee_rate <= MAX_PROTOCOL_FEE_RATE
    }
}

} // verus!
