use vstd::prelude::*;

use crate::account_info::AccountInfo;
use crate::error::{ProgramError, TokenError};
use crate::pubkey::Pubkey;
use crate::rent::{ask_rent_oracle, oracle_answer};

verus! {

/// The record must be owned by `owner`, else `InvalidAccountOwner`.
pub fn assert_owned_by(account: &AccountInfo, owner: &Pubkey) -> (r: Result<(), ProgramError>)
    ensures
        r == (if account.owner@ == owner@ {
            Ok::<(), ProgramError>(())
        } else {
            Err(ProgramError::Custom(TokenError::InvalidAccountOwner))
        }),
{
    if account.owner != *owner {
        Err(ProgramError::Custom(TokenError::InvalidAccountOwner))
    } else {
        Ok(())
    }
}

/// The record must have signed, else `MissingRequiredSignature`.
pub fn assert_signer(account: &AccountInfo) -> (r: Result<(), ProgramError>)
    ensures
        r == (if account.is_signer {
            Ok::<(), ProgramError>(())
        } else {
            Err(ProgramError::MissingRequiredSignature)
        }),
{
    if !account.is_signer {
        Err(ProgramError::MissingRequiredSignature)
    } else {
        Ok(())
    }
}

/// The record must be writable, else `InvalidAccountData`.
pub fn assert_writable(account: &AccountInfo) -> (r: Result<(), ProgramError>)
    ensures
        r == (if account.is_writable {
            Ok::<(), ProgramError>(())
        } else {
            Err(ProgramError::InvalidAccountData)
        }),
{
    if !account.is_writable {
        Err(ProgramError::InvalidAccountData)
    } else {
        Ok(())
    }
}

/// The record's data must be `expected` bytes long, else `InvalidAccountDataLength`.
pub fn assert_data_length(account: &AccountInfo, expected: usize) -> (r: Result<(), ProgramError>)
    ensures
        r == (if account.data@.len() == expected {
            Ok::<(), ProgramError>(())
        } else {
            Err(ProgramError::Custom(TokenError::InvalidAccountDataLength))
        }),
{
    if account.data.len() != expected {
        Err(ProgramError::Custom(TokenError::InvalidAccountDataLength))
    } else {
        Ok(())
    }
}

/// The rent oracle record `rent` must deem the record's balance and size
/// exempt, else `NotRentExempt`; an oracle record that does not read as the
/// rent sysvar, or declares a rate too large to compute with, is
/// `InvalidArgument`.
pub fn assert_rent_exempt(rent: &AccountInfo, account: &AccountInfo) -> (r: Result<(), ProgramError>)
    ensures
        r == (match oracle_answer(rent@, account.lamports, account.data@.len()) {
            None => Err::<(), ProgramError>(ProgramError::InvalidArgument),
            Some(true) => Ok(()),
            Some(false) => Err(ProgramError::Custom(TokenError::NotRentExempt)),
        }),
{
    match ask_rent_oracle(rent, account.lamports, account.data.len()) {
        None => Err(ProgramError::InvalidArgument),
        Some(true) => Ok(()),
        Some(false) => Err(ProgramError::Custom(TokenError::NotRentExempt)),
    }
}

/// Adds two balances; a sum past `u64::MAX` is reported as `Overflow`.
pub fn checked_add(a: u64, b: u64) -> (r: Result<u64, ProgramError>)
    ensures
        a + b <= u64::MAX ==> r == Ok::<u64, ProgramError>((a + b) as u64),
        a + b > u64::MAX ==> r == Err::<u64, ProgramError>(ProgramError::Custom(TokenError::Overflow)),
{
    match a.checked_add(b) {
        Some(s) => Ok(s),
        None => Err(ProgramError::Custom(TokenError::Overflow)),
    }
}

/// Subtracts `b` from `a`; a difference below zero is reported as `InsufficientFunds`.
pub fn checked_sub(a: u64, b: u64) -> (r: Result<u64, ProgramError>)
    ensures
        b <= a ==> r == Ok::<u64, ProgramError>((a - b) as u64),
        b > a ==> r == Err::<u64, ProgramError>(ProgramError::Custom(TokenError::InsufficientFunds)),
{
    match a.checked_sub(b) {
        Some(d) => Ok(d),
        None => Err(ProgramError::Custom(TokenError::InsufficientFunds)),
    }
}

} // verus!
