//! Revoke: clears a token account's delegation.
use vstd::prelude::*;

use crate::account_info::{records_view, AccountInfo, RecordView};
use crate::error::{ProgramError, TokenError};
use crate::processor::{
    check_record, outcome_matches, record_check, signers_from, trailing, with_data, write_data,
};
use crate::pubkey::Pubkey;
use crate::state::account::{account_bytes, decode_account, Account, AccountState, AccountView, ACCOUNT_LEN};
use crate::state::COption;
use crate::utils::authority::{authority_outcome, validate_authority};

verus! {

/// Records: source (written), owner, then signers. A frozen source is refused.
pub open spec fn revoke_outcome(program_id: Seq<u8>, recs: Seq<RecordView>) -> Result<
    Seq<RecordView>,
    ProgramError,
> {
    if recs.len() < 2 {
        Err(ProgramError::NotEnoughAccountKeys)
    } else if let Some(e) = record_check(program_id, recs[0], true, ACCOUNT_LEN as nat) {
        Err(e)
    } else {
        match decode_account(recs[0].data) {
            Err(e) => Err(e),
            Ok(src) => if src.state == AccountState::Uninitialized {
                Err(ProgramError::Custom(TokenError::UninitializedAccount))
            } else if src.state == AccountState::Frozen {
                Err(ProgramError::Custom(TokenError::AccountFrozen))
            } else {
                match authority_outcome(program_id, src.owner, recs[1], trailing(recs, 2)) {
                    Err(e) => Err(e),
                    Ok(_) => Ok(
                        with_data(
                            recs,
                            0,
                            account_bytes(AccountView { delegate: None, delegated_amount: 0, ..src }),
                        ),
                    ),
                }
            },
        }
    }
}

pub fn process(program_id: &Pubkey, accounts: &mut Vec<AccountInfo>) -> (r: Result<(), ProgramError>)
    ensures
        outcome_matches(
            r,
            records_view(old(accounts)@),
            records_view(final(accounts)@),
            revoke_outcome(program_id@, records_view(old(accounts)@)),
        ),
{
    let ghost recs = records_view(accounts@);
    if accounts.len() < 2 {
        return Err(ProgramError::NotEnoughAccountKeys);
    }
    assert(recs[0] == accounts@[0]@ && recs[1] == accounts@[1]@);
    check_record(program_id, &accounts[0], true, Account::LEN)?;
    let mut source = Account::unpack(accounts[0].data.as_slice())?;
    let ghost src = source@;
    if !source.is_initialized() {
        return Err(ProgramError::Custom(TokenError::UninitializedAccount));
    }
    if source.is_frozen() {
        return Err(ProgramError::Custom(TokenError::AccountFrozen));
    }
    validate_authority(program_id, &source.owner, &accounts[1], signers_from(accounts, 2))?;
    source.delegate = COption::none();
    source.delegated_amount = 0;
    assert(source@ == AccountView { delegate: None, delegated_amount: 0, ..src });
    write_data(accounts, 0, source.pack());
    Ok(())
}

} // verus!
