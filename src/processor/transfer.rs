//! Transfer: moves an amount between two token accounts of one mint.
use vstd::prelude::*;

use crate::account_info::{records_view, AccountInfo, RecordView};
use crate::error::{ProgramError, TokenError};
use crate::processor::{
    check_record, outcome_matches, record_check, signers_from, trailing, with_data, write_data,
};
use crate::pubkey::Pubkey;
use crate::state::account::{account_bytes, decode_account, Account, AccountState, AccountView, ACCOUNT_LEN};
use crate::utils::assertions::{checked_add, checked_sub};
use crate::utils::authority::{owner_or_delegate_outcome, validate_owner_or_delegate};

verus! {

/// A token account after `amount` leaves it, drawing on the delegate's
/// allowance when the delegate authorized it; an allowance that reaches
/// zero clears the delegate.
pub open spec fn debit(a: AccountView, amount: u64, by_delegate: bool) -> AccountView {
    let allowance = if by_delegate {
        (a.delegated_amount - amount) as u64
    } else {
        a.delegated_amount
    };
    AccountView {
        amount: (a.amount - amount) as u64,
        delegated_amount: allowance,
        delegate: if by_delegate && allowance == 0 {
            None
        } else {
            a.delegate
        },
        ..a
    }
}

/// A token account after `amount` arrives.
pub open spec fn credit(a: AccountView, amount: u64) -> AccountView {
    AccountView { amount: (a.amount + amount) as u64, ..a }
}

/// Records: source (written), destination (written), authority, then signers.
pub open spec fn transfer_outcome(program_id: Seq<u8>, recs: Seq<RecordView>, amount: u64) -> Result<
    Seq<RecordView>,
    ProgramError,
> {
    if recs.len() < 3 {
        Err(ProgramError::NotEnoughAccountKeys)
    } else if let Some(e) = record_check(program_id, recs[0], true, ACCOUNT_LEN as nat) {
        Err(e)
    } else if let Some(e) = record_check(program_id, recs[1], true, ACCOUNT_LEN as nat) {
        Err(e)
    } else if recs[0].key == recs[1].key {
        Err(ProgramError::Custom(TokenError::SelfTransfer))
    } else {
        match (decode_account(recs[0].data), decode_account(recs[1].data)) {
            (Err(e), _) => Err(e),
            (Ok(_), Err(e)) => Err(e),
            (Ok(src), Ok(dst)) => if src.state == AccountState::Uninitialized
                || dst.state == AccountState::Uninitialized {
                Err(ProgramError::Custom(TokenError::UninitializedAccount))
            } else if src.state == AccountState::Frozen || dst.state == AccountState::Frozen {
                Err(ProgramError::Custom(TokenError::AccountFrozen))
            } else if src.mint != dst.mint {
                Err(ProgramError::Custom(TokenError::MintMismatch))
            } else if src.amount < amount {
                Err(ProgramError::Custom(TokenError::InsufficientFunds))
            } else {
                match owner_or_delegate_outcome(
                    program_id,
                    src.owner,
                    src.delegate,
                    recs[2],
                    trailing(recs, 3),
                ) {
                    Err(e) => Err(e),
                    Ok(by_delegate) => if by_delegate && src.delegated_amount < amount {
                        Err(ProgramError::Custom(TokenError::InsufficientDelegatedAmount))
                    } else if dst.amount + amount > u64::MAX {
                        Err(ProgramError::Custom(TokenError::Overflow))
                    } else {
                        Ok(
                            with_data(
                                with_data(recs, 0, account_bytes(debit(src, amount, by_delegate))),
                                1,
                                account_bytes(credit(dst, amount)),
                            ),
                        )
                    },
                }
            },
        }
    }
}

pub fn process(program_id: &Pubkey, accounts: &mut Vec<AccountInfo>, amount: u64) -> (r: Result<
    (),
    ProgramError,
>)
    ensures
        outcome_matches(
            r,
            records_view(old(accounts)@),
            records_view(final(accounts)@),
            transfer_outcome(program_id@, records_view(old(accounts)@), amount),
        ),
{
    let ghost recs = records_view(accounts@);
    if accounts.len() < 3 {
        return Err(ProgramError::NotEnoughAccountKeys);
    }
    assert(recs[0] == accounts@[0]@ && recs[1] == accounts@[1]@ && recs[2] == accounts@[2]@);
    check_record(program_id, &accounts[0], true, Account::LEN)?;
    check_record(program_id, &accounts[1], true, Account::LEN)?;
    if accounts[0].key == accounts[1].key {
        return Err(ProgramError::Custom(TokenError::SelfTransfer));
    }
    let mut source = Account::unpack(accounts[0].data.as_slice())?;
    let mut dest = Account::unpack(accounts[1].data.as_slice())?;
    let ghost src = source@;
    let ghost dst = dest@;
    if !source.is_initialized() || !dest.is_initialized() {
        return Err(ProgramError::Custom(TokenError::UninitializedAccount));
    }
    if source.is_frozen() || dest.is_frozen() {
        return Err(ProgramError::Custom(TokenError::AccountFrozen));
    }
    if source.mint != dest.mint {
        return Err(ProgramError::Custom(TokenError::MintMismatch));
    }
    if source.amount < amount {
        return Err(ProgramError::Custom(TokenError::InsufficientFunds));
    }
    let used_delegate = validate_owner_or_delegate(
        program_id,
        &source.owner,
        source.delegate.as_ref(),
        &accounts[2],
        signers_from(accounts, 3),
    )?;
    if used_delegate {
        if source.delegated_amount < amount {
            return Err(ProgramError::Custom(TokenError::InsufficientDelegatedAmount));
        }
        source.delegated_amount = checked_sub(source.delegated_amount, amount)?;
        if source.delegated_amount == 0 {
            source.delegate = crate::state::COption::none();
        }
    }
    source.amount = checked_sub(source.amount, amount)?;
    dest.amount = checked_add(dest.amount, amount)?;
    assert(source@ == debit(src, amount, used_delegate));
    assert(dest@ == credit(dst, amount));
    write_data(accounts, 0, source.pack());
    write_data(accounts, 1, dest.pack());
    Ok(())
}

} // verus!
