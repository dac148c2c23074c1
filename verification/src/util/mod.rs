use vstd::prelude::*;

verus! {

/// Which of the accounts handed on with an instruction belong to a
/// transfer hook.
#[derive(Clone, Debug, PartialEq, Eq)]
pub struct RemainingAccountsInfo {
    pub transfer_hook_enabled: bool,
    pub transfer_hook_program_index: u8,
    pub transfer_hook_extra_account_indices: Vec<u8>,
}

} // verus!
