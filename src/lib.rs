//! A fungible-token engine: three packed record kinds (mint, token account,
//! multisig), a twelve-instruction wire codec, authority validation and the
//! instruction handlers, all verified against contracts written over views
//! of the records.
//!
//! Behaviour worth knowing:
//! - a frozen token account refuses approvals, revocations, closing and
//!   authority changes (`AccountFrozen`), as well as outgoing transfers,
//!   burns and incoming mints and transfers;
//! - freezing or thawing does not look at the current state, so freezing a
//!   frozen account succeeds and changes nothing;
//! - enrolled multisig signers need not be distinct, and every signed
//!   record whose key is enrolled counts, once per appearance;
//! - the rent oracle is the rent sysvar record presented with an
//!   initialization, read through solana-program; an oracle record that
//!   declares a rate so large that the exemption minimum would overflow
//!   `u64` is treated as unreadable (`InvalidArgument`);
//! - approving an allowance of zero leaves the account with no delegate.

pub mod account_info;
pub mod bytes;
pub mod error;
pub mod instruction;
pub mod invariants;
pub mod processor;
pub mod pubkey;
pub mod rent;
pub mod state;
pub mod utils;

pub use account_info::AccountInfo;
pub use error::{ProgramError, TokenError};
pub use instruction::{AuthorityType, TokenInstruction};
pub use processor::Processor;
pub use pubkey::Pubkey;
pub use state::{Account, AccountState, COption, Mint, Multisig};
