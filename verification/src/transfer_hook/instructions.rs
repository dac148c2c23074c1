use vstd::prelude::*;
use crate::keys::Pubkey;
use crate::transfer_hook::outside::{
    meta_with_literal_seed, read_transferring_flag, spec_literal_seed_config,
    spec_transferring_flag, ExtraAccountMetaRecord,
};
use crate::transfer_hook::state::{
    key_position, spec_is_first_place, CustomError, HookError, TokenInfo,
    WhaleTransferEvent,
};

verus! {

/// Number of bytes that one address takes on the whitelist.
pub const PUBKEY_SIZE: usize = 32;

/// A change of the settings of a token by its creator.
#[derive(Debug, PartialEq, Eq)]
pub struct UpdateTokenExtension {
    pub token_info: TokenInfo,
    pub token_creator: Pubkey,
}

/// A change of the whitelist of a token by its creator, with the space of
/// the record following the length of the list.
#[derive(Debug, PartialEq, Eq)]
pub struct TokenInfoWhitelistOps {
    pub token_info: TokenInfo,
    pub token_creator: Pubkey,
}

/// The creation of the record of a token and of the list of the extra
/// accounts that its hook asks for.
#[derive(Debug, PartialEq, Eq)]
pub struct InitializeExtraAccountMetaList {
    pub payer: Pubkey,
    pub mint: Pubkey,
    pub mint_decimals: u8,
    pub token_info: Option<TokenInfo>,
}

/// A transfer that the hook is asked to judge.
#[derive(Debug, PartialEq, Eq)]
pub struct TransferHook {
    /// The owner of the source account.
    pub owner: Pubkey,
    /// The record of the token.
    pub token_info: TokenInfo,
    /// The data of the source token account.
    pub source_token_data: Vec<u8>,
}

/// The bytes of the seed "whitelist".
pub open spec fn spec_whitelist_seed() -> Seq<u8> {
    seq![119u8, 104u8, 105u8, 116u8, 101u8, 108u8, 105u8, 115u8, 116u8]
}

/// What the rules of a token say of a transfer: refused where the
/// whitelist is on and the owner is not on it, refused where the limit is
/// on and the amount is above it; else allowed, with a record of the
/// transfer where whale detection is on and the amount is at or above the
/// whale amount.
pub open spec fn spec_check_transfer(token_info: TokenInfo, owner: Pubkey, amount: u64) -> Result<
    Option<WhaleTransferEvent>,
    CustomError,
> {
    if token_info.is_whitelist_enabled && !token_info.spec_is_whitelisted(owner) {
        Err(CustomError::NotWhitelisted)
    } else if token_info.is_total_transfer_amount_enabled && amount
        > token_info.total_transfer_amount {
        Err(CustomError::TransferLimitExceeded)
    } else if token_info.is_whale_enabled && amount >= token_info.whale_amount {
        Ok(Some(WhaleTransferEvent { whale_address: owner, transfer_amount: amount }))
    } else {
        Ok(None)
    }
}

/// What the reading of the flag of the source account says: the hook may
/// only run while the account is in the middle of a transfer, and an
/// error of the reading is handed on as it came.
pub open spec fn spec_decide_transferring(
    flag: Result<bool, anchor_lang::prelude::ProgramError>,
) -> Result<(), HookError> {
    match flag {
        Err(e) => Err(HookError::Program(e)),
        Ok(false) => Err(HookError::Custom(CustomError::NotInTransferHook)),
        Ok(true) => Ok(()),
    }
}

/// What the hook says of a transfer, given the reading of the flag of the
/// source account.
pub open spec fn spec_transfer_hook(
    token_info: TokenInfo,
    owner: Pubkey,
    amount: u64,
    flag: Result<bool, anchor_lang::prelude::ProgramError>,
) -> Result<Option<WhaleTransferEvent>, HookError> {
    match spec_decide_transferring(flag) {
        Err(e) => Err(e),
        Ok(_) => match spec_check_transfer(token_info, owner, amount) {
            Err(e) => Err(HookError::Custom(e)),
            Ok(event) => Ok(event),
        },
    }
}

/// What the hook says of a transfer, by the flag in the data of the source
/// account: with a flag, as `spec_transfer_hook` says of it; without one,
/// the error of the token program.
pub open spec fn spec_hook_outcome(
    r: Result<Option<WhaleTransferEvent>, HookError>,
    token_info: TokenInfo,
    owner: Pubkey,
    amount: u64,
    data: Seq<u8>,
) -> bool {
    match spec_transferring_flag(data) {
        Some(flag) => r == spec_transfer_hook(
            token_info,
            owner,
            amount,
            Ok::<bool, anchor_lang::prelude::ProgramError>(flag),
        ),
        None => r matches Err(HookError::Program(_)),
    }
}

/// Judges the reading of the flag of the source account.
pub fn decide_transferring(flag: Result<bool, anchor_lang::prelude::ProgramError>) -> (r: Result<
    (),
    HookError,
>)
    ensures
        r == spec_decide_transferring(flag),
{
    match flag {
        Err(e) => Err(HookError::Program(e)),
        Ok(false) => Err(HookError::Custom(CustomError::NotInTransferHook)),
        Ok(true) => Ok(()),
    }
}

/// Holds a transfer to the rules of its token.
pub fn check_transfer(token_info: &TokenInfo, owner: &Pubkey, amount: u64) -> (r: Result<
    Option<WhaleTransferEvent>,
    CustomError,
>)
    ensures
        r == spec_check_transfer(*token_info, *owner, amount),
{
    if token_info.is_whitelist_enabled && !token_info.is_whitelisted(owner) {
        return Err(CustomError::NotWhitelisted);
    }
    if token_info.is_total_transfer_amount_enabled && amount > token_info.total_transfer_amount {
        return Err(CustomError::TransferLimitExceeded);
    }
    if token_info.is_whale_enabled && amount >= token_info.whale_amount {
        return Ok(Some(WhaleTransferEvent { whale_address: *owner, transfer_amount: amount }));
    }
    Ok(None)
}

/// The size of the record after one address joins or leaves the
/// whitelist: 32 bytes more, or 32 bytes less and never below zero.
/// `None` where the larger size does not fit.
pub fn realloc_size(data_len: usize, is_adding: bool) -> (r: Option<usize>)
    ensures
        is_adding && data_len + PUBKEY_SIZE <= usize::MAX ==> r == Some(
            (data_len + PUBKEY_SIZE) as usize,
        ),
        is_adding && data_len + PUBKEY_SIZE > usize::MAX ==> r is None,
        !is_adding && data_len >= PUBKEY_SIZE ==> r == Some((data_len - PUBKEY_SIZE) as usize),
        !is_adding && data_len < PUBKEY_SIZE ==> r == Some(0usize),
{
    if is_adding {
        data_len.checked_add(PUBKEY_SIZE)
    } else if data_len >= PUBKEY_SIZE {
        Some(data_len - PUBKEY_SIZE)
    } else {
        Some(0)
    }
}

/// What the creator must add to the balance of the record so that it
/// covers the rent of its new size: nothing where it does already.
pub fn rent_top_up(lamports_required: u64, lamports: u64) -> (r: u64)
    ensures
        lamports_required >= lamports ==> r == lamports_required - lamports,
        lamports_required < lamports ==> r == 0,
{
    if lamports_required >= lamports {
        lamports_required - lamports
    } else {
        0
    }
}

/// What the record gives back to the creator after it has shrunk: its
/// balance above the rent of its new size. `None` where the balance does
/// not cover that rent.
pub fn rent_refund(lamports: u64, lamports_required: u64) -> (r: Option<u64>)
    ensures
        lamports >= lamports_required ==> r == Some((lamports - lamports_required) as u64),
        lamports < lamports_required ==> r is None,
{
    if lamports >= lamports_required {
        Some(lamports - lamports_required)
    } else {
        None
    }
}

impl UpdateTokenExtension {
    /// Puts an address on the whitelist, unless it is there already.
    ///
    /// Refused while the whitelist of the token is switched off.
    pub fn add_to_whitelist(&mut self, new_address: Pubkey) -> (r: Result<(), CustomError>)
        ensures
            !old(self).token_info.is_whitelist_enabled ==> r == Err::<(), CustomError>(
                CustomError::WhitelistDisabled,
            ) && *final(self) == *old(self),
            old(self).token_info.is_whitelist_enabled ==> r == Ok::<(), CustomError>(())
                && final(self).token_info.whitelist_addresses@ == (if old(self).token_info.spec_is_whitelisted(new_address) {
                old(self).token_info.whitelist_addresses@
            } else {
                old(self).token_info.whitelist_addresses@.push(new_address)
            }) && *final(self) == (UpdateTokenExtension {
                token_info: TokenInfo {
                    whitelist_addresses: final(self).token_info.whitelist_addresses,
                    ..old(self).token_info
                },
                ..*old(self)
            }),
    {
        if !self.token_info.is_whitelist_enabled {
            return Err(CustomError::WhitelistDisabled);
        }
        if !self.token_info.is_whitelisted(&new_address) {
            self.token_info.whitelist_addresses.push(new_address);
        }
        Ok(())
    }

    /// Switches the limit on the amount of one transfer on and sets it.
    pub fn set_max_transfer_limit(&mut self, limit: u64) -> (r: Result<(), CustomError>)
        ensures
            r == Ok::<(), CustomError>(()),
            *final(self) == (UpdateTokenExtension {
                token_info: TokenInfo {
                    is_total_transfer_amount_enabled: true,
                    total_transfer_amount: limit,
                    ..old(self).token_info
                },
                ..*old(self)
            }),
    {
        self.token_info.is_total_transfer_amount_enabled = true;
        self.token_info.total_transfer_amount = limit;
        Ok(())
    }

    /// Switches whale detection on or off and sets the whale amount.
    pub fn update_whale_alert(&mut self, enable: bool, amount: u64) -> (r: Result<(), CustomError>)
        ensures
            r == Ok::<(), CustomError>(()),
            *final(self) == (UpdateTokenExtension {
                token_info: TokenInfo {
                    is_whale_enabled: enable,
                    whale_amount: amount,
                    ..old(self).token_info
                },
                ..*old(self)
            }),
    {
        self.token_info.is_whale_enabled = enable;
        self.token_info.whale_amount = amount;
        Ok(())
    }
}

impl TokenInfoWhitelistOps {
    /// Puts an address on the whitelist, unless it is there already.
    /// Returns whether the list has grown, so that the record needs 32
    /// bytes more.
    pub fn add_to_whitelist(&mut self, address: Pubkey) -> (grew: bool)
        ensures
            grew == !old(self).token_info.spec_is_whitelisted(address),
            final(self).token_info.whitelist_addresses@ == (if grew {
                old(self).token_info.whitelist_addresses@.push(address)
            } else {
                old(self).token_info.whitelist_addresses@
            }),
            *final(self) == (TokenInfoWhitelistOps {
                token_info: TokenInfo {
                    whitelist_addresses: final(self).token_info.whitelist_addresses,
                    ..old(self).token_info
                },
                ..*old(self)
            }),
    {
        if !self.token_info.is_whitelisted(&address) {
            self.token_info.whitelist_addresses.push(address);
            true
        } else {
            false
        }
    }

    /// Takes the first entry of an address off the whitelist, if it is on
    /// it. Returns whether the list has shrunk, so that the record needs
    /// 32 bytes less.
    pub fn remove_from_whitelist(&mut self, address: Pubkey) -> (shrank: bool)
        ensures
            shrank == old(self).token_info.spec_is_whitelisted(address),
            !shrank ==> final(self).token_info.whitelist_addresses@ == old(self).token_info.whitelist_addresses@,
            shrank ==> exists|place: int|
                spec_is_first_place(old(self).token_info.whitelist_addresses@, address, place)
                    && final(self).token_info.whitelist_addresses@ == old(self).token_info.whitelist_addresses@.remove(place),
            *final(self) == (TokenInfoWhitelistOps {
                token_info: TokenInfo {
                    whitelist_addresses: final(self).token_info.whitelist_addresses,
                    ..old(self).token_info
                },
                ..*old(self)
            }),
    {
        match key_position(&self.token_info.whitelist_addresses, &address) {
            Some(place) => {
                self.token_info.whitelist_addresses.remove(place);
                assert(spec_is_first_place(
                    old(self).token_info.whitelist_addresses@,
                    address,
                    place as int,
                ));
                true
            },
            None => false,
        }
    }
}

impl InitializeExtraAccountMetaList {
    /// The extra accounts that the hook asks for: one, the address derived
    /// from the literal seed "whitelist", neither signing nor writable.
    pub fn extra_account_metas() -> (r: Result<Vec<ExtraAccountMetaRecord>, HookError>)
        ensures
            r is Ok,
            r.unwrap()@.len() == 1,
            r.unwrap()@[0].discriminator == 1,
            r.unwrap()@[0].address_config@ == spec_literal_seed_config(spec_whitelist_seed()),
            !r.unwrap()@[0].is_signer,
            !r.unwrap()@[0].is_writable,
    {
        let seed: Vec<u8> = vec![119u8, 104u8, 105u8, 116u8, 101u8, 108u8, 105u8, 115u8, 116u8];
        assert(seed@ =~= spec_whitelist_seed());
        match meta_with_literal_seed(&seed, false, false) {
            Ok(meta) => Ok(vec![meta]),
            Err(e) => Err(HookError::Program(e)),
        }
    }

    /// Writes the record of the token: its identity comes from the mint
    /// and the payer, its rules from the arguments, and its whitelist
    /// starts empty.
    pub fn initialize_token_info(
        &mut self,
        bump: u8,
        token_name: String,
        token_symbol: String,
        token_total_supply: u64,
        is_whale_enabled: bool,
        is_whitelist_enabled: bool,
        is_total_transfer_amount_enabled: bool,
        whale_amount: u64,
        total_transfer_amount: u64,
    ) -> (r: Result<(), HookError>)
        ensures
            r == Ok::<(), HookError>(()),
            final(self).payer == old(self).payer,
            final(self).mint == old(self).mint,
            final(self).mint_decimals == old(self).mint_decimals,
            final(self).token_info is Some,
            ({
                let info = final(self).token_info.unwrap();
                &&& info.token_address == old(self).mint
                &&& info.token_name == token_name
                &&& info.token_symbol == token_symbol
                &&& info.token_decimals == old(self).mint_decimals
                &&& info.token_total_supply == token_total_supply
                &&& info.token_mint == old(self).mint
                &&& info.token_creator == old(self).payer
                &&& info.is_whale_enabled == is_whale_enabled
                &&& info.is_whitelist_enabled == is_whitelist_enabled
                &&& info.is_total_transfer_amount_enabled == is_total_transfer_amount_enabled
                &&& info.whale_amount == whale_amount
                &&& info.total_transfer_amount == total_transfer_amount
                &&& info.whitelist_addresses@.len() == 0
                &&& info.bump == bump
            }),
    {
        self.token_info = Some(
            TokenInfo {
                token_address: self.mint,
                token_name,
                token_symbol,
                token_decimals: self.mint_decimals,
                token_total_supply,
                token_mint: self.mint,
                token_creator: self.payer,
                is_whale_enabled,
                is_whitelist_enabled,
                is_total_transfer_amount_enabled,
                whale_amount,
                total_transfer_amount,
                whitelist_addresses: Vec::new(),
                bump,
            },
        );
        Ok(())
    }
}

impl TransferHook {
    /// Judges a transfer: the source account must be in the middle of a
    /// transfer, and the transfer must keep to the rules of the token.
    /// Returns the record of a whale transfer where one is due.
    pub fn transfer_hook(&self, amount: u64) -> (r: Result<Option<WhaleTransferEvent>, HookError>)
        ensures
            spec_hook_outcome(
                r,
                self.token_info,
                self.owner,
                amount,
                self.source_token_data@,
            ),
    {
        match self.check_is_transferring() {
            Ok(_) => {},
            Err(e) => { return Err(e); },
        }
        match check_transfer(&self.token_info, &self.owner, amount) {
            Ok(event) => Ok(event),
            Err(e) => Err(HookError::Custom(e)),
        }
    }

    /// Tests that the source account is in the middle of a transfer.
    fn check_is_transferring(&self) -> (r: Result<(), HookError>)
        ensures
            match spec_transferring_flag(self.source_token_data@) {
                Some(flag) => r == spec_decide_transferring(
                    Ok::<bool, anchor_lang::prelude::ProgramError>(flag),
                ),
                None => r matches Err(HookError::Program(_)),
            },
    {
        decide_transferring(read_transferring_flag(&self.source_token_data))
    }
}

} // verus!
