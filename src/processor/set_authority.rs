//! SetAuthority: replaces one authority of a mint or a token account.
use vstd::prelude::*;

use crate::account_info::{records_view, AccountInfo, RecordView};
use crate::error::{ProgramError, TokenError};
use crate::instruction::{opt_pubkey_view, AuthorityType};
use crate::processor::{
    outcome_matches, record_check, signers_from, trailing, with_data, write_data,
};
use crate::pubkey::Pubkey;
use crate::state::account::{account_bytes, decode_account, Account, AccountState, AccountView, ACCOUNT_LEN};
use crate::state::mint::{decode_mint, mint_bytes, Mint, MintView, MINT_LEN};
use crate::state::COption;
use crate::utils::assertions::{assert_data_length, assert_owned_by, assert_writable};
use crate::utils::authority::{authority_outcome, validate_authority};

verus! {

/// The authority that may close a token account: its close authority when
/// set, else its owner.
pub open spec fn close_authority_of(a: AccountView) -> Seq<u8> {
    match a.close_authority {
        Some(c) => c,
        None => a.owner,
    }
}

/// Records: target (written), current authority, then signers.
///
/// On a mint, `MintTokens` and `FreezeAccount` replace the named authority,
/// and `None` removes it for good. On a token account, `AccountOwner` needs a
/// new owner and clears the delegation, and `CloseAccount` replaces the close
/// authority. A frozen token account is refused.
pub open spec fn set_authority_outcome(
    program_id: Seq<u8>,
    recs: Seq<RecordView>,
    authority_type: AuthorityType,
    new_authority: Option<Seq<u8>>,
) -> Result<Seq<RecordView>, ProgramError> {
    let on_mint = authority_type == AuthorityType::MintTokens || authority_type
        == AuthorityType::FreezeAccount;
    let len = if on_mint {
        MINT_LEN as nat
    } else {
        ACCOUNT_LEN as nat
    };
    if recs.len() < 2 {
        Err(ProgramError::NotEnoughAccountKeys)
    } else if let Some(e) = record_check(program_id, recs[0], true, len) {
        Err(e)
    } else if on_mint {
        match decode_mint(recs[0].data) {
            Err(e) => Err(e),
            Ok(m) => if !m.is_initialized {
                Err(ProgramError::Custom(TokenError::UninitializedAccount))
            } else {
                let current = if authority_type == AuthorityType::MintTokens {
                    m.mint_authority
                } else {
                    m.freeze_authority
                };
                match current {
                    None => Err(
                        ProgramError::Custom(
                            if authority_type == AuthorityType::MintTokens {
                                TokenError::InvalidAuthority
                            } else {
                                TokenError::FreezeAuthorityRequired
                            },
                        ),
                    ),
                    Some(cur) => match authority_outcome(program_id, cur, recs[1], trailing(recs, 2)) {
                        Err(e) => Err(e),
                        Ok(_) => Ok(
                            with_data(
                                recs,
                                0,
                                mint_bytes(
                                    if authority_type == AuthorityType::MintTokens {
                                        MintView { mint_authority: new_authority, ..m }
                                    } else {
                                        MintView { freeze_authority: new_authority, ..m }
                                    },
                                ),
                            ),
                        ),
                    },
                }
            },
        }
    } else {
        match decode_account(recs[0].data) {
            Err(e) => Err(e),
            Ok(a) => if a.state == AccountState::Uninitialized {
                Err(ProgramError::Custom(TokenError::UninitializedAccount))
            } else if a.state == AccountState::Frozen {
                Err(ProgramError::Custom(TokenError::AccountFrozen))
            } else if authority_type == AuthorityType::AccountOwner {
                match authority_outcome(program_id, a.owner, recs[1], trailing(recs, 2)) {
                    Err(e) => Err(e),
                    Ok(_) => match new_authority {
                        None => Err(ProgramError::Custom(TokenError::InvalidAuthority)),
                        Some(owner) => Ok(
                            with_data(
                                recs,
                                0,
                                account_bytes(
                                    AccountView { owner, delegate: None, delegated_amount: 0, ..a },
                                ),
                            ),
                        ),
                    },
                }
            } else {
                match authority_outcome(
                    program_id,
                    close_authority_of(a),
                    recs[1],
                    trailing(recs, 2),
                ) {
                    Err(e) => Err(e),
                    Ok(_) => Ok(
                        with_data(
                            recs,
                            0,
                            account_bytes(AccountView { close_authority: new_authority, ..a }),
                        ),
                    ),
                }
            },
        }
    }
}

pub fn process(
    program_id: &Pubkey,
    accounts: &mut Vec<AccountInfo>,
    authority_type: AuthorityType,
    new_authority: Option<Pubkey>,
) -> (r: Result<(), ProgramError>)
    ensures
        outcome_matches(
            r,
            records_view(old(accounts)@),
            records_view(final(accounts)@),
            set_authority_outcome(
                program_id@,
                records_view(old(accounts)@),
                authority_type,
                opt_pubkey_view(new_authority),
            ),
        ),
{
    let ghost recs = records_view(accounts@);
    if accounts.len() < 2 {
        return Err(ProgramError::NotEnoughAccountKeys);
    }
    assert(recs[0] == accounts@[0]@ && recs[1] == accounts@[1]@);
    assert_owned_by(&accounts[0], program_id)?;
    assert_writable(&accounts[0])?;
    match authority_type {
        AuthorityType::MintTokens => process_set_mint_authority(program_id, accounts, new_authority),
        AuthorityType::FreezeAccount => process_set_freeze_authority(
            program_id,
            accounts,
            new_authority,
        ),
        AuthorityType::AccountOwner => process_set_account_owner(program_id, accounts, new_authority),
        AuthorityType::CloseAccount => process_set_close_authority(
            program_id,
            accounts,
            new_authority,
        ),
    }
}

fn process_set_mint_authority(
    program_id: &Pubkey,
    accounts: &mut Vec<AccountInfo>,
    new_authority: Option<Pubkey>,
) -> (r: Result<(), ProgramError>)
    requires
        old(accounts)@.len() >= 2,
        old(accounts)@[0].owner@ == program_id@,
        old(accounts)@[0].is_writable,
    ensures
        outcome_matches(
            r,
            records_view(old(accounts)@),
            records_view(final(accounts)@),
            set_authority_outcome(
                program_id@,
                records_view(old(accounts)@),
                AuthorityType::MintTokens,
                opt_pubkey_view(new_authority),
            ),
        ),
{
    let ghost recs = records_view(accounts@);
    assert(recs[0] == accounts@[0]@ && recs[1] == accounts@[1]@);
    assert_data_length(&accounts[0], Mint::LEN)?;
    let mut mint = Mint::unpack(accounts[0].data.as_slice())?;
    let ghost m = mint@;
    if !mint.is_initialized {
        return Err(ProgramError::Custom(TokenError::UninitializedAccount));
    }
    let current = match mint.mint_authority.value {
        Some(a) => a,
        None => {
            return Err(ProgramError::Custom(TokenError::InvalidAuthority));
        },
    };
    validate_authority(program_id, &current, &accounts[1], signers_from(accounts, 2))?;
    mint.mint_authority = COption::from(new_authority);
    assert(mint@ == MintView { mint_authority: opt_pubkey_view(new_authority), ..m });
    write_data(accounts, 0, mint.pack());
    Ok(())
}

fn process_set_freeze_authority(
    program_id: &Pubkey,
    accounts: &mut Vec<AccountInfo>,
    new_authority: Option<Pubkey>,
) -> (r: Result<(), ProgramError>)
    requires
        old(accounts)@.len() >= 2,
        old(accounts)@[0].owner@ == program_id@,
        old(accounts)@[0].is_writable,
    ensures
        outcome_matches(
            r,
            records_view(old(accounts)@),
            records_view(final(accounts)@),
            set_authority_outcome(
                program_id@,
                records_view(old(accounts)@),
                AuthorityType::FreezeAccount,
                opt_pubkey_view(new_authority),
            ),
        ),
{
    let ghost recs = records_view(accounts@);
    assert(recs[0] == accounts@[0]@ && recs[1] == accounts@[1]@);
    assert_data_length(&accounts[0], Mint::LEN)?;
    let mut mint = Mint::unpack(accounts[0].data.as_slice())?;
    let ghost m = mint@;
    if !mint.is_initialized {
        return Err(ProgramError::Custom(TokenError::UninitializedAccount));
    }
    let current = match mint.freeze_authority.value {
        Some(a) => a,
        None => {
            return Err(ProgramError::Custom(TokenError::FreezeAuthorityRequired));
        },
    };
    validate_authority(program_id, &current, &accounts[1], signers_from(accounts, 2))?;
    mint.freeze_authority = COption::from(new_authority);
    assert(mint@ == MintView { freeze_authority: opt_pubkey_view(new_authority), ..m });
    write_data(accounts, 0, mint.pack());
    Ok(())
}

fn process_set_account_owner(
    program_id: &Pubkey,
    accounts: &mut Vec<AccountInfo>,
    new_authority: Option<Pubkey>,
) -> (r: Result<(), ProgramError>)
    requires
        old(accounts)@.len() >= 2,
        old(accounts)@[0].owner@ == program_id@,
        old(accounts)@[0].is_writable,
    ensures
        outcome_matches(
            r,
            records_view(old(accounts)@),
            records_view(final(accounts)@),
            set_authority_outcome(
                program_id@,
                records_view(old(accounts)@),
                AuthorityType::AccountOwner,
                opt_pubkey_view(new_authority),
            ),
        ),
{
    let ghost recs = records_view(accounts@);
    assert(recs[0] == accounts@[0]@ && recs[1] == accounts@[1]@);
    assert_data_length(&accounts[0], Account::LEN)?;
    let mut account = Account::unpack(accounts[0].data.as_slice())?;
    let ghost a = account@;
    if !account.is_initialized() {
        return Err(ProgramError::Custom(TokenError::UninitializedAccount));
    }
    if account.is_frozen() {
        return Err(ProgramError::Custom(TokenError::AccountFrozen));
    }
    validate_authority(program_id, &account.owner, &accounts[1], signers_from(accounts, 2))?;
    let new_owner = match new_authority {
        Some(k) => k,
        None => {
            return Err(ProgramError::Custom(TokenError::InvalidAuthority));
        },
    };
    account.owner = new_owner;
    account.delegate = COption::none();
    account.delegated_amount = 0;
    assert(account@ == AccountView { owner: new_owner@, delegate: None, delegated_amount: 0, ..a });
    write_data(accounts, 0, account.pack());
    Ok(())
}

fn process_set_close_authority(
    program_id: &Pubkey,
    accounts: &mut Vec<AccountInfo>,
    new_authority: Option<Pubkey>,
) -> (r: Result<(), ProgramError>)
    requires
        old(accounts)@.len() >= 2,
        old(accounts)@[0].owner@ == program_id@,
        old(accounts)@[0].is_writable,
    ensures
        outcome_matches(
            r,
            records_view(old(accounts)@),
            records_view(final(accounts)@),
            set_authority_outcome(
                program_id@,
                records_view(old(accounts)@),
                AuthorityType::CloseAccount,
                opt_pubkey_view(new_authority),
            ),
        ),
{
    let ghost recs = records_view(accounts@);
    assert(recs[0] == accounts@[0]@ && recs[1] == accounts@[1]@);
    assert_data_length(&accounts[0], Account::LEN)?;
    let mut account = Account::unpack(accounts[0].data.as_slice())?;
    let ghost a = account@;
    if !account.is_initialized() {
        return Err(ProgramError::Custom(TokenError::UninitializedAccount));
    }
    if account.is_frozen() {
        return Err(ProgramError::Custom(TokenError::AccountFrozen));
    }
    let current = account.close_authority.unwrap_or(account.owner);
    validate_authority(program_id, &current, &accounts[1], signers_from(accounts, 2))?;
    account.close_authority = COption::from(new_authority);
    assert(account@ == AccountView { close_authority: opt_pubkey_view(new_authority), ..a });
    write_data(accounts, 0, account.pack());
    Ok(())
}

} // verus!
