use vstd::prelude::*;
use crate::keys::Pubkey;
use crate::transfer_hook::instructions::{
    spec_hook_outcome, InitializeExtraAccountMetaList, TransferHook, UpdateTokenExtension,
};
use crate::transfer_hook::state::{CustomError, HookError, TokenInfo, WhaleTransferEvent};

verus! {

/// Writes the record of a token when its hook is set up.
pub fn initialize_token_info(
    ctx: &mut InitializeExtraAccountMetaList,
    bump: u8,
    token_name: String,
    token_symbol: String,
    token_total_supply: u64,
    is_whale_enabled: bool,
    is_whitelist_enabled: bool,
    is_total_transfer_amount_enabled: bool,
    whale_amount: u64,
    total_transfer_amount: u64,
) -> (r: Result<(), HookError>)
    ensures
        r == Ok::<(), HookError>(()),
        final(ctx).payer == old(ctx).payer,
        final(ctx).mint == old(ctx).mint,
        final(ctx).mint_decimals == old(ctx).mint_decimals,
        final(ctx).token_info is Some,
        ({
            let info = final(ctx).token_info.unwrap();
            &&& info.token_address == old(ctx).mint
            &&& info.token_name == token_name
            &&& info.token_symbol == token_symbol
            &&& info.token_decimals == old(ctx).mint_decimals
            &&& info.token_total_supply == token_total_supply
            &&& info.token_mint == old(ctx).mint
            &&& info.token_creator == old(ctx).payer
            &&& info.is_whale_enabled == is_whale_enabled
            &&& info.is_whitelist_enabled == is_whitelist_enabled
            &&& info.is_total_transfer_amount_enabled == is_total_transfer_amount_enabled
            &&& info.whale_amount == whale_amount
            &&& info.total_transfer_amount == total_transfer_amount
            &&& info.whitelist_addresses@.len() == 0
            &&& info.bump == bump
        }),
{
    ctx.initialize_token_info(
        bump,
        token_name,
        token_symbol,
        token_total_supply,
        is_whale_enabled,
        is_whitelist_enabled,
        is_total_transfer_amount_enabled,
        whale_amount,
        total_transfer_amount,
    )
}

/// Puts an address on the whitelist of a token.
pub fn add_to_whitelist(ctx: &mut UpdateTokenExtension, new_address: Pubkey) -> (r: Result<
    (),
    CustomError,
>)
    ensures
        !old(ctx).token_info.is_whitelist_enabled ==> r == Err::<(), CustomError>(
            CustomError::WhitelistDisabled,
        ) && *final(ctx) == *old(ctx),
        old(ctx).token_info.is_whitelist_enabled ==> r == Ok::<(), CustomError>(()) && final(ctx).token_info.whitelist_addresses@ == (if old(ctx).token_info.spec_is_whitelisted(
            new_address,
        ) {
            old(ctx).token_info.whitelist_addresses@
        } else {
            old(ctx).token_info.whitelist_addresses@.push(new_address)
        }) && *final(ctx) == (UpdateTokenExtension {
            token_info: TokenInfo {
                whitelist_addresses: final(ctx).token_info.whitelist_addresses,
                ..old(ctx).token_info
            },
            ..*old(ctx)
        }),
{
    ctx.add_to_whitelist(new_address)
}

/// Sets the limit on the amount of one transfer of a token.
pub fn set_max_transfer_limit(ctx: &mut UpdateTokenExtension, limit: u64) -> (r: Result<
    (),
    CustomError,
>)
    ensures
        r == Ok::<(), CustomError>(()),
        *final(ctx) == (UpdateTokenExtension {
            token_info: TokenInfo {
                is_total_transfer_amount_enabled: true,
                total_transfer_amount: limit,
                ..old(ctx).token_info
            },
            ..*old(ctx)
        }),
{
    ctx.set_max_transfer_limit(limit)
}

/// Switches the whale detection of a token on or off and sets the whale
/// amount.
pub fn update_whale_alert(ctx: &mut UpdateTokenExtension, enable: bool, amount: u64) -> (r: Result<
    (),
    CustomError,
>)
    ensures
        r == Ok::<(), CustomError>(()),
        *final(ctx) == (UpdateTokenExtension {
            token_info: TokenInfo {
                is_whale_enabled: enable,
                whale_amount: amount,
                ..old(ctx).token_info
            },
            ..*old(ctx)
        }),
{
    ctx.update_whale_alert(enable, amount)
}

/// Judges a transfer of a token.
pub fn transfer_hook(ctx: &TransferHook, amount: u64) -> (r: Result<
    Option<WhaleTransferEvent>,
    HookError,
>)
    ensures
        spec_hook_outcome(r, ctx.token_info, ctx.owner, amount, ctx.source_token_data@),
{
    ctx.transfer_hook(amount)
}

} // verus!
