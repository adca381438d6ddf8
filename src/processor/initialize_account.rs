//! InitializeAccount: binds an uninitialized token account to a mint and an owner.
use vstd::prelude::*;

use crate::account_info::{records_view, AccountInfo, RecordView};
use crate::error::{ProgramError, TokenError};
use crate::processor::{
    check_record, outcome_matches, record_check, rent_answer, rent_for, with_data, write_data,
};
use crate::pubkey::Pubkey;
use crate::state::account::{account_bytes, decode_account, Account, AccountState, AccountView, ACCOUNT_LEN};
use crate::state::mint::{decode_mint, Mint, MINT_LEN};
use crate::state::COption;

verus! {

/// A fresh token account of `mint` owned by `owner`.
pub open spec fn fresh_account(mint: Seq<u8>, owner: Seq<u8>) -> AccountView {
    AccountView {
        mint,
        owner,
        amount: 0,
        delegate: None,
        state: AccountState::Initialized,
        is_native: None,
        delegated_amount: 0,
        close_authority: None,
    }
}

/// Records: account (written), mint, owner, rent oracle. `rent` is the
/// oracle's answer for the account record.
pub open spec fn initialize_account_outcome(
    program_id: Seq<u8>,
    recs: Seq<RecordView>,
    rent: Option<bool>,
) -> Result<Seq<RecordView>, ProgramError> {
    if recs.len() < 4 {
        Err(ProgramError::NotEnoughAccountKeys)
    } else if rent is None {
        Err(ProgramError::InvalidArgument)
    } else if let Some(e) = record_check(program_id, recs[0], true, ACCOUNT_LEN as nat) {
        Err(e)
    } else if rent == Some(false) {
        Err(ProgramError::Custom(TokenError::NotRentExempt))
    } else if let Some(e) = record_check(program_id, recs[1], false, MINT_LEN as nat) {
        Err(e)
    } else {
        match decode_mint(recs[1].data) {
            Err(e) => Err(e),
            Ok(m) => if !m.is_initialized {
                Err(ProgramError::Custom(TokenError::UninitializedAccount))
            } else {
                match decode_account(recs[0].data) {
                    Err(e) => Err(e),
                    Ok(a) => if a.state != AccountState::Uninitialized {
                        Err(ProgramError::Custom(TokenError::AlreadyInitialized))
                    } else {
                        Ok(with_data(recs, 0, account_bytes(fresh_account(recs[1].key, recs[2].key))))
                    },
                }
            },
        }
    }
}

/// Initializes the token account, asking the rent oracle record (record 3)
/// whether the account record is exempt.
pub fn process(program_id: &Pubkey, accounts: &mut Vec<AccountInfo>) -> (r: Result<(), ProgramError>)
    ensures
        outcome_matches(
            r,
            records_view(old(accounts)@),
            records_view(final(accounts)@),
            initialize_account_outcome(
                program_id@,
                records_view(old(accounts)@),
                rent_for(records_view(old(accounts)@), 3, ACCOUNT_LEN as nat),
            ),
        ),
{
    let rent = rent_answer(accounts, 3, Account::LEN);
    process_with_rent(program_id, accounts, rent)
}

/// Initializes the token account given the rent oracle's answer.
pub fn process_with_rent(program_id: &Pubkey, accounts: &mut Vec<AccountInfo>, rent: Option<bool>) -> (r:
    Result<(), ProgramError>)
    ensures
        outcome_matches(
            r,
            records_view(old(accounts)@),
            records_view(final(accounts)@),
            initialize_account_outcome(program_id@, records_view(old(accounts)@), rent),
        ),
{
    let ghost recs = records_view(accounts@);
    if accounts.len() < 4 {
        return Err(ProgramError::NotEnoughAccountKeys);
    }
    assert(recs[0] == accounts@[0]@ && recs[1] == accounts@[1]@ && recs[2] == accounts@[2]@);
    let exempt = match rent {
        Some(b) => b,
        None => {
            return Err(ProgramError::InvalidArgument);
        },
    };
    check_record(program_id, &accounts[0], true, Account::LEN)?;
    if !exempt {
        return Err(ProgramError::Custom(TokenError::NotRentExempt));
    }
    check_record(program_id, &accounts[1], false, Mint::LEN)?;
    let mint = Mint::unpack(accounts[1].data.as_slice())?;
    if !mint.is_initialized {
        return Err(ProgramError::Custom(TokenError::UninitializedAccount));
    }
    let mut account = Account::unpack(accounts[0].data.as_slice())?;
    if account.is_initialized() {
        return Err(ProgramError::Custom(TokenError::AlreadyInitialized));
    }
    account.mint = accounts[1].key;
    account.owner = accounts[2].key;
    account.amount = 0;
    account.delegate = COption::none();
    account.state = AccountState::Initialized;
    account.is_native = COption::none();
    account.delegated_amount = 0;
    account.close_authority = COption::none();
    assert(account@ == fresh_account(recs[1].key, recs[2].key));
    write_data(accounts, 0, account.pack());
    Ok(())
}

} // verus!
