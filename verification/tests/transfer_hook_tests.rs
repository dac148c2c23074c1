use anchor_lang::prelude::ProgramError;
use pool::keys::Pubkey;
use pool::transfer_hook::instructions::{
    check_transfer, decide_transferring, realloc_size, rent_refund, rent_top_up,
};
use pool::transfer_hook::outside::ExtraAccountMetaRecord;
use pool::transfer_hook::state::{key_position, MAX_WHITELIST, TOKEN_INFO_INIT_SPACE};
use pool::transfer_hook::{
    add_to_whitelist, initialize_token_info, set_max_transfer_limit, transfer_hook,
    update_whale_alert, CustomError, HookError, InitializeExtraAccountMetaList, TokenInfo,
    TokenInfoWhitelistOps, TransferHook, UpdateTokenExtension, WhaleTransferEvent,
};

fn key(n: u8) -> Pubkey {
    Pubkey::new_from_array([n; 32])
}

fn token_info() -> TokenInfo {
    TokenInfo {
        token_address: key(1),
        token_name: String::from("Token"),
        token_symbol: String::from("TKN"),
        token_decimals: 6,
        token_total_supply: 1_000_000,
        token_mint: key(1),
        token_creator: key(2),
        is_whale_enabled: false,
        is_whitelist_enabled: false,
        is_total_transfer_amount_enabled: false,
        whale_amount: 0,
        total_transfer_amount: 0,
        whitelist_addresses: vec![],
        bump: 250,
    }
}

/// The data of an initialized token account that carries the
/// transfer-hook extension with the given flag.
fn account_data(transferring: u8) -> Vec<u8> {
    let mut data = vec![0u8; 165];
    data[108] = 1; // the account is initialized
    data.push(2); // the data are those of a token account
    data.extend_from_slice(&[15, 0]); // the transfer-hook extension of an account
    data.extend_from_slice(&[1, 0]); // one byte long
    data.push(transferring);
    data
}

fn hook(info: TokenInfo, owner: Pubkey, data: Vec<u8>) -> TransferHook {
    TransferHook { owner, token_info: info, source_token_data: data }
}

#[test]
fn a_transfer_under_no_rules_passes() {
    assert_eq!(check_transfer(&token_info(), &key(7), u64::MAX), Ok(None));
}

#[test]
fn the_whitelist_admits_only_its_addresses() {
    let mut info = token_info();
    info.is_whitelist_enabled = true;
    assert_eq!(check_transfer(&info, &key(7), 1), Err(CustomError::NotWhitelisted));
    info.whitelist_addresses = vec![key(6), key(7)];
    assert_eq!(check_transfer(&info, &key(7), 1), Ok(None));
    assert_eq!(check_transfer(&info, &key(8), 1), Err(CustomError::NotWhitelisted));
    info.is_whitelist_enabled = false;
    assert_eq!(check_transfer(&info, &key(8), 1), Ok(None));
}

#[test]
fn the_limit_refuses_amounts_above_it() {
    let mut info = token_info();
    info.is_total_transfer_amount_enabled = true;
    info.total_transfer_amount = 500;
    assert_eq!(check_transfer(&info, &key(7), 500), Ok(None));
    assert_eq!(check_transfer(&info, &key(7), 501), Err(CustomError::TransferLimitExceeded));
    info.is_total_transfer_amount_enabled = false;
    assert_eq!(check_transfer(&info, &key(7), 501), Ok(None));
}

#[test]
fn the_whitelist_is_looked_at_before_the_limit() {
    let mut info = token_info();
    info.is_whitelist_enabled = true;
    info.is_total_transfer_amount_enabled = true;
    info.total_transfer_amount = 5;
    assert_eq!(check_transfer(&info, &key(7), 6), Err(CustomError::NotWhitelisted));
}

#[test]
fn a_whale_transfer_is_recorded_from_the_whale_amount_on() {
    let mut info = token_info();
    info.is_whale_enabled = true;
    info.whale_amount = 1_000;
    assert_eq!(check_transfer(&info, &key(7), 999), Ok(None));
    assert_eq!(
        check_transfer(&info, &key(7), 1_000),
        Ok(Some(WhaleTransferEvent { whale_address: key(7), transfer_amount: 1_000 }))
    );
    info.is_whale_enabled = false;
    assert_eq!(check_transfer(&info, &key(7), 1_000), Ok(None));
}

#[test]
fn the_flag_decides_whether_the_hook_may_run() {
    assert_eq!(decide_transferring(Ok(true)), Ok(()));
    assert_eq!(
        decide_transferring(Ok(false)),
        Err(HookError::Custom(CustomError::NotInTransferHook))
    );
    assert_eq!(
        decide_transferring(Err(ProgramError::InvalidAccountData)),
        Err(HookError::Program(ProgramError::InvalidAccountData))
    );
    assert_eq!(
        decide_transferring(Err(ProgramError::Custom(7))),
        Err(HookError::Program(ProgramError::Custom(7)))
    );
}

#[test]
fn the_hook_runs_only_in_the_middle_of_a_transfer() {
    let mut info = token_info();
    info.is_whale_enabled = true;
    info.whale_amount = 10;
    let running = hook(info, key(7), account_data(1));
    assert_eq!(
        transfer_hook(&running, 10),
        Ok(Some(WhaleTransferEvent { whale_address: key(7), transfer_amount: 10 }))
    );
    assert_eq!(transfer_hook(&running, 9), Ok(None));
    let idle = hook(token_info(), key(7), account_data(0));
    assert_eq!(
        transfer_hook(&idle, 10),
        Err(HookError::Custom(CustomError::NotInTransferHook))
    );
}

#[test]
fn the_hook_holds_a_running_transfer_to_the_rules() {
    let mut info = token_info();
    info.is_whitelist_enabled = true;
    info.whitelist_addresses = vec![key(5)];
    let stranger = hook(info, key(7), account_data(1));
    assert_eq!(
        stranger.transfer_hook(1),
        Err(HookError::Custom(CustomError::NotWhitelisted))
    );
    let mut info = token_info();
    info.is_total_transfer_amount_enabled = true;
    info.total_transfer_amount = 3;
    let limited = hook(info, key(7), account_data(1));
    assert_eq!(
        limited.transfer_hook(4),
        Err(HookError::Custom(CustomError::TransferLimitExceeded))
    );
    assert_eq!(limited.transfer_hook(3), Ok(None));
}

#[test]
fn the_hook_refuses_data_that_are_no_token_account() {
    // too short for a token account: the error of the token program comes through
    for data in [vec![], vec![0u8; 10]] {
        let broken = hook(token_info(), key(7), data);
        assert_eq!(
            transfer_hook(&broken, 1),
            Err(HookError::Program(ProgramError::InvalidAccountData))
        );
    }
    // not initialized
    for data in [vec![0u8; 165], vec![0u8; 171]] {
        let broken = hook(token_info(), key(7), data);
        assert_eq!(
            transfer_hook(&broken, 1),
            Err(HookError::Program(ProgramError::UninitializedAccount))
        );
    }
    // an initialized account without the extension
    let mut plain = vec![0u8; 165];
    plain[108] = 1;
    assert!(matches!(
        transfer_hook(&hook(token_info(), key(7), plain), 1),
        Err(HookError::Program(_))
    ));
    // the data of a mint
    let mut mint = account_data(1);
    mint[165] = 1;
    assert_eq!(
        transfer_hook(&hook(token_info(), key(7), mint), 1),
        Err(HookError::Program(ProgramError::InvalidAccountData))
    );
}

#[test]
fn the_hook_asks_for_the_account_of_the_whitelist_seed() {
    let metas = InitializeExtraAccountMetaList::extra_account_metas().unwrap();
    let mut config = [0u8; 32];
    config[0] = 1;
    config[1] = 9;
    config[2..11].copy_from_slice(b"whitelist");
    assert_eq!(
        metas,
        vec![ExtraAccountMetaRecord {
            discriminator: 1,
            address_config: config,
            is_signer: false,
            is_writable: false,
        }]
    );
}

#[test]
fn a_token_record_starts_with_an_empty_whitelist() {
    let mut ctx = InitializeExtraAccountMetaList {
        payer: key(2),
        mint: key(1),
        mint_decimals: 6,
        token_info: None,
    };
    assert_eq!(
        initialize_token_info(
            &mut ctx,
            250,
            String::from("Token"),
            String::from("TKN"),
            1_000_000,
            true,
            false,
            true,
            77,
            88
        ),
        Ok(())
    );
    let mut expected = token_info();
    expected.is_whale_enabled = true;
    expected.is_total_transfer_amount_enabled = true;
    expected.whale_amount = 77;
    expected.total_transfer_amount = 88;
    assert_eq!(ctx.token_info, Some(expected));
    assert_eq!((ctx.payer, ctx.mint, ctx.mint_decimals), (key(2), key(1), 6));
}

#[test]
fn an_address_joins_an_enabled_whitelist_once() {
    let mut info = token_info();
    info.is_whitelist_enabled = true;
    let mut ctx = UpdateTokenExtension { token_info: info, token_creator: key(2) };
    assert_eq!(add_to_whitelist(&mut ctx, key(5)), Ok(()));
    assert_eq!(add_to_whitelist(&mut ctx, key(6)), Ok(()));
    assert_eq!(add_to_whitelist(&mut ctx, key(5)), Ok(()));
    assert_eq!(ctx.token_info.whitelist_addresses, vec![key(5), key(6)]);
    assert!(ctx.token_info.is_whitelisted(&key(6)));
    assert!(!ctx.token_info.is_whitelisted(&key(7)));
}

#[test]
fn a_disabled_whitelist_takes_no_address() {
    let mut ctx = UpdateTokenExtension { token_info: token_info(), token_creator: key(2) };
    assert_eq!(add_to_whitelist(&mut ctx, key(5)), Err(CustomError::WhitelistDisabled));
    assert!(ctx.token_info.whitelist_addresses.is_empty());
}

#[test]
fn settings_are_written_as_given() {
    let mut ctx = UpdateTokenExtension { token_info: token_info(), token_creator: key(2) };
    assert_eq!(set_max_transfer_limit(&mut ctx, 123), Ok(()));
    assert!(ctx.token_info.is_total_transfer_amount_enabled);
    assert_eq!(ctx.token_info.total_transfer_amount, 123);
    assert_eq!(update_whale_alert(&mut ctx, true, 456), Ok(()));
    assert!(ctx.token_info.is_whale_enabled);
    assert_eq!(ctx.token_info.whale_amount, 456);
    assert_eq!(update_whale_alert(&mut ctx, false, 7), Ok(()));
    assert!(!ctx.token_info.is_whale_enabled);
    assert_eq!(ctx.token_info.whale_amount, 7);
    let mut expected = token_info();
    expected.is_total_transfer_amount_enabled = true;
    expected.total_transfer_amount = 123;
    expected.whale_amount = 7;
    assert_eq!(ctx.token_info, expected);
}

#[test]
fn whitelist_operations_tell_whether_the_list_changed() {
    let mut ops = TokenInfoWhitelistOps { token_info: token_info(), token_creator: key(2) };
    assert!(ops.add_to_whitelist(key(5)));
    assert!(ops.add_to_whitelist(key(6)));
    assert!(!ops.add_to_whitelist(key(5)));
    assert!(ops.add_to_whitelist(key(7)));
    assert_eq!(ops.token_info.whitelist_addresses, vec![key(5), key(6), key(7)]);
    assert!(ops.remove_from_whitelist(key(6)));
    assert_eq!(ops.token_info.whitelist_addresses, vec![key(5), key(7)]);
    assert!(!ops.remove_from_whitelist(key(6)));
    assert!(ops.remove_from_whitelist(key(5)));
    assert!(ops.remove_from_whitelist(key(7)));
    assert!(ops.token_info.whitelist_addresses.is_empty());
    assert!(!ops.remove_from_whitelist(key(7)));
}

#[test]
fn removal_takes_the_first_entry_of_an_address() {
    let mut info = token_info();
    info.whitelist_addresses = vec![key(1), key(2), key(1), key(3)];
    assert_eq!(key_position(&info.whitelist_addresses, &key(1)), Some(0));
    assert_eq!(key_position(&info.whitelist_addresses, &key(3)), Some(3));
    assert_eq!(key_position(&info.whitelist_addresses, &key(4)), None);
    let mut ops = TokenInfoWhitelistOps { token_info: info, token_creator: key(2) };
    assert!(ops.remove_from_whitelist(key(1)));
    assert_eq!(ops.token_info.whitelist_addresses, vec![key(2), key(1), key(3)]);
}

#[test]
fn the_record_grows_and_shrinks_by_one_address() {
    assert_eq!(realloc_size(100, true), Some(132));
    assert_eq!(realloc_size(100, false), Some(68));
    assert_eq!(realloc_size(32, false), Some(0));
    assert_eq!(realloc_size(31, false), Some(0));
    assert_eq!(realloc_size(0, false), Some(0));
    assert_eq!(realloc_size(usize::MAX - 31, true), None);
    assert_eq!(realloc_size(usize::MAX - 32, true), Some(usize::MAX));
}

#[test]
fn rent_is_topped_up_or_refunded_to_the_balance_needed() {
    assert_eq!(rent_top_up(1_000, 400), 600);
    assert_eq!(rent_top_up(1_000, 1_000), 0);
    assert_eq!(rent_top_up(1_000, 1_001), 0);
    assert_eq!(rent_refund(1_000, 400), Some(600));
    assert_eq!(rent_refund(1_000, 1_000), Some(0));
    assert_eq!(rent_refund(400, 1_000), None);
}

#[test]
fn the_space_of_a_token_record_allows_fifty_addresses() {
    assert_eq!(MAX_WHITELIST, 50);
    assert_eq!(TOKEN_INFO_INIT_SPACE, 1_751);
}

#[test]
fn hook_errors_have_their_text() {
    assert_eq!(CustomError::NotWhitelisted.message(), "TransferHook: Owner not whitelisted");
    assert_eq!(
        CustomError::TransferLimitExceeded.message(),
        "TransferHook: Transfer amount exceeds allowed maximum"
    );
    assert_eq!(
        CustomError::NotInTransferHook.message(),
        "TransferHook: Not called during transfer hook"
    );
    assert_eq!(CustomError::WhitelistDisabled.message(), "TransferHook: Whitelist is disabled");
}
