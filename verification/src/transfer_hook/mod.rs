pub mod instructions;
pub mod outside;
pub mod program;
pub mod state;

pub use instructions::{
    InitializeExtraAccountMetaList, TokenInfoWhitelistOps, TransferHook, UpdateTokenExtension,
};
pub use program::{
    add_to_whitelist, initialize_token_info, set_max_transfer_limit, transfer_hook,
    update_whale_alert,
};
pub use state::{CustomError, HookError, TokenInfo, WhaleTransferEvent};
