use vstd::prelude::*;
use crate::keys::Pubkey;

verus! {

/// Largest number of addresses that the space of a token record allows
/// on its whitelist.
pub const MAX_WHITELIST: usize = 50;

/// Why a transfer or a change of settings is refused.
#[derive(Clone, Copy, Debug, PartialEq, Eq, Structural)]
pub enum CustomError {
    NotWhitelisted,
    TransferLimitExceeded,
    NotInTransferHook,
    WhitelistDisabled,
}

/// Why the hook fails: for a reason of its own, or with the error that the
/// token program gave when the data of the source account did not unpack.
#[derive(Debug, PartialEq, Eq)]
pub enum HookError {
    /// A rule of the hook refuses.
    Custom(CustomError),
    /// The error of the token program, handed on as it came.
    Program(anchor_lang::prelude::ProgramError),
}

/// A transfer at or above the whale amount took place.
#[derive(Clone, Copy, Debug, PartialEq, Eq)]
pub struct WhaleTransferEvent {
    pub whale_address: Pubkey,
    pub transfer_amount: u64,
}

/// What the hook knows of a token: its identity and the rules that its
/// transfers are held to.
#[derive(Debug, PartialEq, Eq)]
pub struct TokenInfo {
    pub token_address: Pubkey,
    pub token_name: String,
    pub token_symbol: String,
    pub token_decimals: u8,
    pub token_total_supply: u64,
    pub token_mint: Pubkey,
    pub token_creator: Pubkey,
    pub is_whale_enabled: bool,
    pub is_whitelist_enabled: bool,
    pub is_total_transfer_amount_enabled: bool,
    pub whale_amount: u64,
    pub total_transfer_amount: u64,
    pub whitelist_addresses: Vec<Pubkey>,
    pub bump: u8,
}

/// Space that a token record takes when it is created.
pub const TOKEN_INFO_INIT_SPACE: usize = 8 + 32 + 4 + 10 + 1 + 8 + 32 + 32 + 1 + 1 + 1 + 8 + 8 + 4
    + (32 * MAX_WHITELIST) + 1;

impl CustomError {
    /// The text of each error, as a sequence of characters.
    pub open spec fn spec_message(self) -> Seq<char> {
        match self {
            CustomError::NotWhitelisted => "TransferHook: Owner not whitelisted"@,
            CustomError::TransferLimitExceeded => "TransferHook: Transfer amount exceeds allowed maximum"@,
            CustomError::NotInTransferHook => "TransferHook: Not called during transfer hook"@,
            CustomError::WhitelistDisabled => "TransferHook: Whitelist is disabled"@,
        }
    }

    /// The human-readable text attached to each error.
    pub fn message(&self) -> (text: &'static str)
        ensures
            text@ == self.spec_message(),
    {
        match self {
            CustomError::NotWhitelisted => "TransferHook: Owner not whitelisted",
            CustomError::TransferLimitExceeded => "TransferHook: Transfer amount exceeds allowed maximum",
            CustomError::NotInTransferHook => "TransferHook: Not called during transfer hook",
            CustomError::WhitelistDisabled => "TransferHook: Whitelist is disabled",
        }
    }
}

/// Whether a list of keys holds a key.
pub open spec fn spec_contains_key(list: Seq<Pubkey>, key: Pubkey) -> bool {
    exists|i: int| 0 <= i < list.len() && (#[trigger] list[i])@ == key@
}

/// The place of the first key of a list that equals `key`.
pub open spec fn spec_is_first_place(list: Seq<Pubkey>, key: Pubkey, place: int) -> bool {
    &&& 0 <= place < list.len()
    &&& list[place]@ == key@
    &&& forall|j: int| 0 <= j < place ==> (#[trigger] list[j])@ != key@
}

/// Finds the first place of a key in a list of keys.
pub fn key_position(list: &Vec<Pubkey>, key: &Pubkey) -> (r: Option<usize>)
    ensures
        match r {
            Some(place) => spec_is_first_place(list@, *key, place as int),
            None => !spec_contains_key(list@, *key),
        },
        r is Some == spec_contains_key(list@, *key),
{
    let mut i: usize = 0;
    while i < list.len()
        invariant
            0 <= i <= list@.len(),
            forall|j: int| 0 <= j < i ==> (#[trigger] list@[j])@ != key@,
        decreases list@.len() - i,
    {
        if list[i].equals(key) {
            return Some(i);
        }
        i = i + 1;
    }
    None
}

impl TokenInfo {
    /// Whether the whitelist holds an address.
    pub open spec fn spec_is_whitelisted(&self, address: Pubkey) -> bool {
        spec_contains_key(self.whitelist_addresses@, address)
    }

    /// Whether the whitelist holds an address.
    pub fn is_whitelisted(&self, address: &Pubkey) -> (r: bool)
        ensures
            r == self.spec_is_whitelisted(*address),
    {
        key_position(&self.whitelist_addresses, address).is_some()
    }
}

} // verus!
