//! MintTo: creates units in a token account, raising the mint's supply.
use vstd::prelude::*;

use crate::account_info::{records_view, AccountInfo, RecordView};
use crate::error::{ProgramError, TokenError};
use crate::processor::transfer::credit;
use crate::processor::{
    check_record, outcome_matches, record_check, signers_from, trailing, with_data, write_data,
};
use crate::pubkey::Pubkey;
use crate::state::account::{account_bytes, decode_account, Account, AccountState, ACCOUNT_LEN};
use crate::state::mint::{decode_mint, mint_bytes, Mint, MintView, MINT_LEN};
use crate::utils::assertions::checked_add;
use crate::utils::authority::{authority_outcome, validate_authority};

verus! {

/// Records: mint (written), destination (written), authority, then signers.
pub open spec fn mint_to_outcome(program_id: Seq<u8>, recs: Seq<RecordView>, amount: u64) -> Result<
    Seq<RecordView>,
    ProgramError,
> {
    if recs.len() < 3 {
        Err(ProgramError::NotEnoughAccountKeys)
    } else if let Some(e) = record_check(program_id, recs[0], true, MINT_LEN as nat) {
        Err(e)
    } else if let Some(e) = record_check(program_id, recs[1], true, ACCOUNT_LEN as nat) {
        Err(e)
    } else {
        match (decode_mint(recs[0].data), decode_account(recs[1].data)) {
            (Err(e), _) => Err(e),
            (Ok(_), Err(e)) => Err(e),
            (Ok(m), Ok(dst)) => if !m.is_initialized || dst.state == AccountState::Uninitialized {
                Err(ProgramError::Custom(TokenError::UninitializedAccount))
            } else if dst.state == AccountState::Frozen {
                Err(ProgramError::Custom(TokenError::AccountFrozen))
            } else if dst.mint != recs[0].key {
                Err(ProgramError::Custom(TokenError::MintMismatch))
            } else {
                match m.mint_authority {
                    None => Err(ProgramError::Custom(TokenError::MintAuthorityRequired)),
                    Some(auth) => match authority_outcome(program_id, auth, recs[2], trailing(recs, 3)) {
                        Err(e) => Err(e),
                        Ok(_) => if m.supply + amount > u64::MAX || dst.amount + amount > u64::MAX {
                            Err(ProgramError::Custom(TokenError::Overflow))
                        } else {
                            Ok(
                                with_data(
                                    with_data(
                                        recs,
                                        0,
                                        mint_bytes(MintView { supply: (m.supply + amount) as u64, ..m }),
                                    ),
                                    1,
                                    account_bytes(credit(dst, amount)),
                                ),
                            )
                        },
                    },
                }
            },
        }
    }
}

pub fn process(program_id: &Pubkey, accounts: &mut Vec<AccountInfo>, amount: u64) -> (r: Result<
    (),
    ProgramError,
>)
    ensures
        outcome_matches(
            r,
            records_view(old(accounts)@),
            records_view(final(accounts)@),
            mint_to_outcome(program_id@, records_view(old(accounts)@), amount),
        ),
{
    let ghost recs = records_view(accounts@);
    if accounts.len() < 3 {
        return Err(ProgramError::NotEnoughAccountKeys);
    }
    assert(recs[0] == accounts@[0]@ && recs[1] == accounts@[1]@ && recs[2] == accounts@[2]@);
    check_record(program_id, &accounts[0], true, Mint::LEN)?;
    check_record(program_id, &accounts[1], true, Account::LEN)?;
    let mut mint = Mint::unpack(accounts[0].data.as_slice())?;
    let mut dest = Account::unpack(accounts[1].data.as_slice())?;
    let ghost m = mint@;
    let ghost dst = dest@;
    if !mint.is_initialized || !dest.is_initialized() {
        return Err(ProgramError::Custom(TokenError::UninitializedAccount));
    }
    if dest.is_frozen() {
        return Err(ProgramError::Custom(TokenError::AccountFrozen));
    }
    if dest.mint != accounts[0].key {
        return Err(ProgramError::Custom(TokenError::MintMismatch));
    }
    let mint_authority = match mint.mint_authority.value {
        Some(a) => a,
        None => {
            return Err(ProgramError::Custom(TokenError::MintAuthorityRequired));
        },
    };
    validate_authority(program_id, &mint_authority, &accounts[2], signers_from(accounts, 3))?;
    mint.supply = checked_add(mint.supply, amount)?;
    dest.amount = checked_add(dest.amount, amount)?;
    assert(mint@ == MintView { supply: (m.supply + amount) as u64, ..m });
    assert(dest@ == credit(dst, amount));
    write_data(accounts, 0, mint.pack());
    write_data(accounts, 1, dest.pack());
    Ok(())
}

} // verus!
