//! Transfer policies for a token: deny-lists of addresses and quotas over a
//! moving window, and the evaluation of a list of such policies against one
//! transfer.

pub mod address;
pub mod error;
pub mod window;
pub mod limiters;
pub mod mint_rate_limit;
pub mod authority_rate_limit;

pub mod constants;
pub mod block_list;
pub mod wire;
pub mod codec;
pub mod policy;
pub mod token_account;
pub mod hook;
pub mod program;
pub mod pda;
pub mod rate_limits;
pub mod sanctioned_transfer_hook;
pub mod instruction;
pub mod registration;
