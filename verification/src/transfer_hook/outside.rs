use vstd::prelude::*;

verus! {

/// The error type of the programs that the hook calls into.
#[verifier::external_type_specification]
#[verifier::external_body]
pub struct ExProgramError(anchor_lang::prelude::ProgramError);

/// One extra account that a transfer hook asks for, as plain values.
#[derive(Clone, Copy, Debug, PartialEq, Eq)]
pub struct ExtraAccountMetaRecord {
    /// How `address_config` is to be read: 1 for the seeds of a derived
    /// address.
    pub discriminator: u8,
    /// The packed configuration of the address.
    pub address_config: [u8; 32],
    /// Whether the account must sign.
    pub is_signer: bool,
    /// Whether the account must be writable.
    pub is_writable: bool,
}

/// The flag `transferring` of the transfer-hook extension in the data of a
/// token account, where the data unpack as an initialized token account
/// that carries the extension.
pub uninterp spec fn spec_transferring_flag(data: Seq<u8>) -> Option<bool>;

/// One literal seed packed into an address configuration: the
/// discriminator 1, the length of the seed, the seed, and zeros up to 32
/// bytes.
pub open spec fn spec_literal_seed_config(seed: Seq<u8>) -> Seq<u8> {
    Seq::new(
        32,
        |i: int|
            if i == 0 {
                1u8
            } else if i == 1 {
                seed.len() as u8
            } else if i < 2 + seed.len() {
                seed[i - 2]
            } else {
                0u8
            },
    )
}

/// Calls `PodStateWithExtensionsMut::<PodAccount>::unpack` of
/// spl-token-2022 on a copy of the data and reads the extension
/// `TransferHookAccount` with `get_extension_mut`. Both depend on the
/// bytes alone; the contract gives their outcome the name
/// `spec_transferring_flag` and claims nothing else of it.
#[verifier::external_body]
pub(crate) fn read_transferring_flag(data: &Vec<u8>) -> (r: Result<
    bool,
    anchor_lang::prelude::ProgramError,
>)
    ensures
        match r {
            Ok(flag) => spec_transferring_flag(data@) == Some(flag),
            Err(_) => spec_transferring_flag(data@) is None,
        },
{
    let mut copy = data.clone();
    let mut account = anchor_spl::token_2022::spl_token_2022::extension::PodStateWithExtensionsMut::<
        anchor_spl::token_2022::spl_token_2022::pod::PodAccount,
    >::unpack(&mut copy)?;
    let extension = anchor_spl::token_2022::spl_token_2022::extension::BaseStateWithExtensionsMut::get_extension_mut::<
        anchor_spl::token_2022::spl_token_2022::extension::transfer_hook::TransferHookAccount,
    >(&mut account)?;
    Ok(bool::from(extension.transferring))
}

/// Calls `ExtraAccountMeta::new_with_seeds` of spl-tlv-account-resolution
/// with one literal seed. By its source the call sets the discriminator
/// to 1, packs the seed as `spec_literal_seed_config` says, and fails
/// where the packed seed, two bytes longer than the seed, does not fit in
/// 32 bytes. A seed of more than 253 bytes is left out: its packed length
/// does not fit the byte that the outside code holds it in.
#[verifier::external_body]
pub(crate) fn meta_with_literal_seed(seed: &Vec<u8>, is_signer: bool, is_writable: bool) -> (r:
    Result<ExtraAccountMetaRecord, anchor_lang::prelude::ProgramError>)
    requires
        seed@.len() <= 253,
    ensures
        r is Ok == (seed@.len() <= 30),
        r is Ok ==> r.unwrap().discriminator == 1 && r.unwrap().address_config@
            == spec_literal_seed_config(seed@) && r.unwrap().is_signer == is_signer
            && r.unwrap().is_writable == is_writable,
{
    let meta = spl_tlv_account_resolution::account::ExtraAccountMeta::new_with_seeds(
        &[spl_tlv_account_resolution::seeds::Seed::Literal { bytes: seed.clone() }],
        is_signer,
        is_writable,
    )?;
    Ok(
        ExtraAccountMetaRecord {
            discriminator: meta.discriminator,
            address_config: meta.address_config,
            is_signer: bool::from(meta.is_signer),
            is_writable: bool::from(meta.is_writable),
        },
    )
}

} // verus!
