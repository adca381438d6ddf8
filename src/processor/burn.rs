//! Burn: destroys units held in a token account, lowering the mint's supply.
use vstd::prelude::*;

use crate::account_info::{records_view, AccountInfo, RecordView};
use crate::error::{ProgramError, TokenError};
use crate::processor::transfer::debit;
use crate::processor::{
    check_record, outcome_matches, record_check, signers_from, trailing, with_data, write_data,
};
use crate::pubkey::Pubkey;
use crate::state::account::{account_bytes, decode_account, Account, AccountState, ACCOUNT_LEN};
use crate::state::mint::{decode_mint, mint_bytes, Mint, MintView, MINT_LEN};
use crate::state::COption;
use crate::utils::assertions::checked_sub;
use crate::utils::authority::{owner_or_delegate_outcome, validate_owner_or_delegate};

verus! {

/// Records: account (written), mint (written), authority, then signers.
pub open spec fn burn_outcome(program_id: Seq<u8>, recs: Seq<RecordView>, amount: u64) -> Result<
    Seq<RecordView>,
    ProgramError,
> {
    if recs.len() < 3 {
        Err(ProgramError::NotEnoughAccountKeys)
    } else if let Some(e) = record_check(program_id, recs[0], true, ACCOUNT_LEN as nat) {
        Err(e)
    } else if let Some(e) = record_check(program_id, recs[1], true, MINT_LEN as nat) {
        Err(e)
    } else {
        match (decode_account(recs[0].data), decode_mint(recs[1].data)) {
            (Err(e), _) => Err(e),
            (Ok(_), Err(e)) => Err(e),
            (Ok(acc), Ok(m)) => if acc.state == AccountState::Uninitialized || !m.is_initialized {
                Err(ProgramError::Custom(TokenError::UninitializedAccount))
            } else if acc.state == AccountState::Frozen {
                Err(ProgramError::Custom(TokenError::AccountFrozen))
            } else if acc.mint != recs[1].key {
                Err(ProgramError::Custom(TokenError::MintMismatch))
            } else if acc.amount < amount {
                Err(ProgramError::Custom(TokenError::InsufficientFunds))
            } else {
                match owner_or_delegate_outcome(
                    program_id,
                    acc.owner,
                    acc.delegate,
                    recs[2],
                    trailing(recs, 3),
                ) {
                    Err(e) => Err(e),
                    Ok(by_delegate) => if by_delegate && acc.delegated_amount < amount {
                        Err(ProgramError::Custom(TokenError::InsufficientDelegatedAmount))
                    } else if m.supply < amount {
                        Err(ProgramError::Custom(TokenError::InsufficientFunds))
                    } else {
                        Ok(
                            with_data(
                                with_data(recs, 0, account_bytes(debit(acc, amount, by_delegate))),
                                1,
                                mint_bytes(MintView { supply: (m.supply - amount) as u64, ..m }),
                            ),
                        )
                    },
                }
            },
        }
    }
}

pub fn process(program_id: &Pubkey, accounts: &mut Vec<AccountInfo>, amount: u64) -> (r: Result<
    (),
    ProgramError,
>)
    ensures
        outcome_matches(
            r,
            records_view(old(accounts)@),
            records_view(final(accounts)@),
            burn_outcome(program_id@, records_view(old(accounts)@), amount),
        ),
{
    let ghost recs = records_view(accounts@);
    if accounts.len() < 3 {
        return Err(ProgramError::NotEnoughAccountKeys);
    }
    assert(recs[0] == accounts@[0]@ && recs[1] == accounts@[1]@ && recs[2] == accounts@[2]@);
    check_record(program_id, &accounts[0], true, Account::LEN)?;
    check_record(program_id, &accounts[1], true, Mint::LEN)?;
    let mut account = Account::unpack(accounts[0].data.as_slice())?;
    let mut mint = Mint::unpack(accounts[1].data.as_slice())?;
    let ghost acc = account@;
    let ghost m = mint@;
    if !account.is_initialized() || !mint.is_initialized {
        return Err(ProgramError::Custom(TokenError::UninitializedAccount));
    }
    if account.is_frozen() {
        return Err(ProgramError::Custom(TokenError::AccountFrozen));
    }
    if account.mint != accounts[1].key {
        return Err(ProgramError::Custom(TokenError::MintMismatch));
    }
    if account.amount < amount {
        return Err(ProgramError::Custom(TokenError::InsufficientFunds));
    }
    let used_delegate = validate_owner_or_delegate(
        program_id,
        &account.owner,
        account.delegate.as_ref(),
        &accounts[2],
        signers_from(accounts, 3),
    )?;
    if used_delegate {
        if account.delegated_amount < amount {
            return Err(ProgramError::Custom(TokenError::InsufficientDelegatedAmount));
        }
        account.delegated_amount = checked_sub(account.delegated_amount, amount)?;
        if account.delegated_amount == 0 {
            account.delegate = COption::none();
        }
    }
    account.amount = checked_sub(account.amount, amount)?;
    mint.supply = checked_sub(mint.supply, amount)?;
    assert(account@ == debit(acc, amount, used_delegate));
    assert(mint@ == MintView { supply: (m.supply - amount) as u64, ..m });
    write_data(accounts, 0, account.pack());
    write_data(accounts, 1, mint.pack());
    Ok(())
}

} // verus!
