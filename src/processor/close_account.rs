//! CloseAccount: retires an empty token account, moving its lamports to a
//! destination record and zeroing its data.
use vstd::prelude::*;

use crate::account_info::{records_view, AccountInfo, RecordView};
use crate::error::{ProgramError, TokenError};
use crate::processor::set_authority::close_authority_of;
use crate::processor::{check_record, outcome_matches, record_check, signers_from, trailing};
use crate::pubkey::Pubkey;
use crate::state::account::{decode_account, Account, AccountState, ACCOUNT_LEN};
use crate::state::{write_zeros, zeros};
use crate::utils::assertions::{assert_writable, checked_add};
use crate::utils::authority::{authority_outcome, validate_authority};

verus! {

/// The records after a close: the destination gains the account's lamports,
/// and the account keeps no lamports and zeroed data.
pub open spec fn closed(recs: Seq<RecordView>) -> Seq<RecordView> {
    recs.update(1, RecordView { lamports: (recs[1].lamports + recs[0].lamports) as u64, ..recs[1] }).update(
        0,
        RecordView { lamports: 0, data: zeros(ACCOUNT_LEN as nat), ..recs[0] },
    )
}

/// Records: account (written), destination (written), authority, then
/// signers. The destination must differ from the account; the account must
/// be empty; a frozen account is refused.
pub open spec fn close_account_outcome(program_id: Seq<u8>, recs: Seq<RecordView>) -> Result<
    Seq<RecordView>,
    ProgramError,
> {
    if recs.len() < 3 {
        Err(ProgramError::NotEnoughAccountKeys)
    } else if let Some(e) = record_check(program_id, recs[0], true, ACCOUNT_LEN as nat) {
        Err(e)
    } else if !recs[1].is_writable {
        Err(ProgramError::InvalidAccountData)
    } else if recs[0].key == recs[1].key {
        Err(ProgramError::Custom(TokenError::InvalidAuthority))
    } else {
        match decode_account(recs[0].data) {
            Err(e) => Err(e),
            Ok(a) => if a.state == AccountState::Uninitialized {
                Err(ProgramError::Custom(TokenError::UninitializedAccount))
            } else if a.state == AccountState::Frozen {
                Err(ProgramError::Custom(TokenError::AccountFrozen))
            } else if a.amount != 0 {
                Err(ProgramError::Custom(TokenError::NonZeroBalance))
            } else {
                match authority_outcome(program_id, close_authority_of(a), recs[2], trailing(recs, 3)) {
                    Err(e) => Err(e),
                    Ok(_) => if recs[1].lamports + recs[0].lamports > u64::MAX {
                        Err(ProgramError::Custom(TokenError::Overflow))
                    } else {
                        Ok(closed(recs))
                    },
                }
            },
        }
    }
}

pub fn process(program_id: &Pubkey, accounts: &mut Vec<AccountInfo>) -> (r: Result<(), ProgramError>)
    ensures
        outcome_matches(
            r,
            records_view(old(accounts)@),
            records_view(final(accounts)@),
            close_account_outcome(program_id@, records_view(old(accounts)@)),
        ),
{
    let ghost recs = records_view(accounts@);
    if accounts.len() < 3 {
        return Err(ProgramError::NotEnoughAccountKeys);
    }
    assert(recs[0] == accounts@[0]@ && recs[1] == accounts@[1]@ && recs[2] == accounts@[2]@);
    check_record(program_id, &accounts[0], true, Account::LEN)?;
    assert_writable(&accounts[1])?;
    if accounts[0].key == accounts[1].key {
        return Err(ProgramError::Custom(TokenError::InvalidAuthority));
    }
    let account = Account::unpack(accounts[0].data.as_slice())?;
    if !account.is_initialized() {
        return Err(ProgramError::Custom(TokenError::UninitializedAccount));
    }
    if account.is_frozen() {
        return Err(ProgramError::Custom(TokenError::AccountFrozen));
    }
    if account.amount != 0 {
        return Err(ProgramError::Custom(TokenError::NonZeroBalance));
    }
    let close_authority = account.close_authority.unwrap_or(account.owner);
    validate_authority(program_id, &close_authority, &accounts[2], signers_from(accounts, 3))?;
    let account_lamports = accounts[0].lamports;
    let dest_lamports = checked_add(accounts[1].lamports, account_lamports)?;
    let mut cleared: Vec<u8> = Vec::new();
    write_zeros(&mut cleared, Account::LEN);
    accounts[1].lamports = dest_lamports;
    accounts[0].lamports = 0;
    accounts[0].data = cleared;
    assert(records_view(accounts@) =~= closed(recs));
    Ok(())
}

} // verus!
