//! FreezeAccount: stops outgoing changes to a token account.
use vstd::prelude::*;

use crate::account_info::{records_view, AccountInfo, RecordView};
use crate::error::{ProgramError, TokenError};
use crate::processor::{
    check_record, outcome_matches, record_check, signers_from, trailing, with_data, write_data,
};
use crate::pubkey::Pubkey;
use crate::state::account::{account_bytes, decode_account, Account, AccountState, AccountView, ACCOUNT_LEN};
use crate::state::mint::{decode_mint, Mint, MINT_LEN};
use crate::utils::authority::{authority_outcome, validate_authority};

verus! {

/// Records: account (written), mint, freeze authority, then signers. The
/// account's state becomes `target`, whatever it was.
pub open spec fn set_state_outcome(
    program_id: Seq<u8>,
    recs: Seq<RecordView>,
    target: AccountState,
) -> Result<Seq<RecordView>, ProgramError> {
    if recs.len() < 3 {
        Err(ProgramError::NotEnoughAccountKeys)
    } else if let Some(e) = record_check(program_id, recs[0], true, ACCOUNT_LEN as nat) {
        Err(e)
    } else if let Some(e) = record_check(program_id, recs[1], false, MINT_LEN as nat) {
        Err(e)
    } else {
        match (decode_account(recs[0].data), decode_mint(recs[1].data)) {
            (Err(e), _) => Err(e),
            (Ok(_), Err(e)) => Err(e),
            (Ok(a), Ok(m)) => if a.state == AccountState::Uninitialized || !m.is_initialized {
                Err(ProgramError::Custom(TokenError::UninitializedAccount))
            } else if a.mint != recs[1].key {
                Err(ProgramError::Custom(TokenError::MintMismatch))
            } else {
                match m.freeze_authority {
                    None => Err(ProgramError::Custom(TokenError::FreezeAuthorityRequired)),
                    Some(fa) => match authority_outcome(program_id, fa, recs[2], trailing(recs, 3)) {
                        Err(e) => Err(e),
                        Ok(_) => Ok(
                            with_data(recs, 0, account_bytes(AccountView { state: target, ..a })),
                        ),
                    },
                }
            },
        }
    }
}

/// Sets the state of a token account on the authority of its mint's
/// freeze authority.
pub(crate) fn set_state(program_id: &Pubkey, accounts: &mut Vec<AccountInfo>, target: AccountState) -> (r:
    Result<(), ProgramError>)
    requires
        target != AccountState::Uninitialized,
    ensures
        outcome_matches(
            r,
            records_view(old(accounts)@),
            records_view(final(accounts)@),
            set_state_outcome(program_id@, records_view(old(accounts)@), target),
        ),
{
    let ghost recs = records_view(accounts@);
    if accounts.len() < 3 {
        return Err(ProgramError::NotEnoughAccountKeys);
    }
    assert(recs[0] == accounts@[0]@ && recs[1] == accounts@[1]@ && recs[2] == accounts@[2]@);
    check_record(program_id, &accounts[0], true, Account::LEN)?;
    check_record(program_id, &accounts[1], false, Mint::LEN)?;
    let mut account = Account::unpack(accounts[0].data.as_slice())?;
    let mint = Mint::unpack(accounts[1].data.as_slice())?;
    let ghost a = account@;
    if !account.is_initialized() || !mint.is_initialized {
        return Err(ProgramError::Custom(TokenError::UninitializedAccount));
    }
    if account.mint != accounts[1].key {
        return Err(ProgramError::Custom(TokenError::MintMismatch));
    }
    let freeze_authority = match mint.freeze_authority.value {
        Some(k) => k,
        None => {
            return Err(ProgramError::Custom(TokenError::FreezeAuthorityRequired));
        },
    };
    validate_authority(program_id, &freeze_authority, &accounts[2], signers_from(accounts, 3))?;
    account.state = target;
    assert(account@ == AccountView { state: target, ..a });
    write_data(accounts, 0, account.pack());
    Ok(())
}

pub fn process(program_id: &Pubkey, accounts: &mut Vec<AccountInfo>) -> (r: Result<(), ProgramError>)
    ensures
        outcome_matches(
            r,
            records_view(old(accounts)@),
            records_view(final(accounts)@),
            set_state_outcome(program_id@, records_view(old(accounts)@), AccountState::Frozen),
        ),
{
    set_state(program_id, accounts, AccountState::Frozen)
}

} // verus!
