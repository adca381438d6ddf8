//! Approve: lets a delegate spend up to an amount from a token account.
use vstd::prelude::*;

use crate::account_info::{records_view, AccountInfo, RecordView};
use crate::error::{ProgramError, TokenError};
use crate::processor::{
    check_record, outcome_matches, record_check, signers_from, trailing, with_data, write_data,
};
use crate::pubkey::Pubkey;
use crate::state::account::{account_bytes, decode_account, Account, AccountState, AccountView, ACCOUNT_LEN};
use crate::state::COption;
use crate::utils::authority::{authority_outcome, validate_authority};

verus! {

/// Records: source (written), delegate, owner, then signers. The new
/// delegation replaces any earlier one; an allowance of zero leaves no
/// delegate, so that a delegate is set exactly when its allowance is
/// positive. A frozen source is refused.
pub open spec fn approve_outcome(program_id: Seq<u8>, recs: Seq<RecordView>, amount: u64) -> Result<
    Seq<RecordView>,
    ProgramError,
> {
    if recs.len() < 3 {
        Err(ProgramError::NotEnoughAccountKeys)
    } else if let Some(e) = record_check(program_id, recs[0], true, ACCOUNT_LEN as nat) {
        Err(e)
    } else {
        match decode_account(recs[0].data) {
            Err(e) => Err(e),
            Ok(src) => if src.state == AccountState::Uninitialized {
                Err(ProgramError::Custom(TokenError::UninitializedAccount))
            } else if src.state == AccountState::Frozen {
                Err(ProgramError::Custom(TokenError::AccountFrozen))
            } else {
                match authority_outcome(program_id, src.owner, recs[2], trailing(recs, 3)) {
                    Err(e) => Err(e),
                    Ok(_) => Ok(
                        with_data(
                            recs,
                            0,
                            account_bytes(
                                AccountView {
                                    delegate: if amount == 0 {
                                        None
                                    } else {
                                        Some(recs[1].key)
                                    },
                                    delegated_amount: amount,
                                    ..src
                                },
                            ),
                        ),
                    ),
                }
            },
        }
    }
}

pub fn process(program_id: &Pubkey, accounts: &mut Vec<AccountInfo>, amount: u64) -> (r: Result<
    (),
    ProgramError,
>)
    ensures
        outcome_matches(
            r,
            records_view(old(accounts)@),
            records_view(final(accounts)@),
            approve_outcome(program_id@, records_view(old(accounts)@), amount),
        ),
{
    let ghost recs = records_view(accounts@);
    if accounts.len() < 3 {
        return Err(ProgramError::NotEnoughAccountKeys);
    }
    assert(recs[0] == accounts@[0]@ && recs[1] == accounts@[1]@ && recs[2] == accounts@[2]@);
    check_record(program_id, &accounts[0], true, Account::LEN)?;
    let mut source = Account::unpack(accounts[0].data.as_slice())?;
    let ghost src = source@;
    if !source.is_initialized() {
        return Err(ProgramError::Custom(TokenError::UninitializedAccount));
    }
    if source.is_frozen() {
        return Err(ProgramError::Custom(TokenError::AccountFrozen));
    }
    validate_authority(program_id, &source.owner, &accounts[2], signers_from(accounts, 3))?;
    source.delegate = if amount == 0 {
        COption::none()
    } else {
        COption::some(accounts[1].key)
    };
    source.delegated_amount = amount;
    assert(source@ == AccountView {
        delegate: if amount == 0 {
            None
        } else {
            Some(recs[1].key)
        },
        delegated_amount: amount,
        ..src
    });
    write_data(accounts, 0, source.pack());
    Ok(())
}

} // verus!
