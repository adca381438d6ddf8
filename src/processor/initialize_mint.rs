//! InitializeMint: sets up a new token type in an uninitialized mint record.
use vstd::prelude::*;

use crate::account_info::{records_view, AccountInfo, RecordView};
use crate::error::{ProgramError, TokenError};
use crate::instruction::opt_pubkey_view;
use crate::processor::{
    check_record, outcome_matches, record_check, rent_answer, rent_for, with_data, write_data,
};
use crate::pubkey::Pubkey;
use crate::state::mint::{decode_mint, mint_bytes, Mint, MintView, MINT_LEN};
use crate::state::COption;

verus! {

/// Records: mint (written), rent oracle. `rent` is the oracle's answer:
/// `None` when the oracle record cannot be read, else whether the mint
/// record is rent-exempt.
pub open spec fn initialize_mint_outcome(
    program_id: Seq<u8>,
    recs: Seq<RecordView>,
    decimals: u8,
    mint_authority: Seq<u8>,
    freeze_authority: Option<Seq<u8>>,
    rent: Option<bool>,
) -> Result<Seq<RecordView>, ProgramError> {
    if recs.len() < 2 {
        Err(ProgramError::NotEnoughAccountKeys)
    } else if rent is None {
        Err(ProgramError::InvalidArgument)
    } else if let Some(e) = record_check(program_id, recs[0], true, MINT_LEN as nat) {
        Err(e)
    } else if rent == Some(false) {
        Err(ProgramError::Custom(TokenError::NotRentExempt))
    } else {
        match decode_mint(recs[0].data) {
            Err(e) => Err(e),
            Ok(m) => if m.is_initialized {
                Err(ProgramError::Custom(TokenError::AlreadyInitialized))
            } else {
                Ok(
                    with_data(
                        recs,
                        0,
                        mint_bytes(
                            MintView {
                                mint_authority: Some(mint_authority),
                                supply: 0,
                                decimals,
                                is_initialized: true,
                                freeze_authority,
                            },
                        ),
                    ),
                )
            },
        }
    }
}

/// Initializes the mint, asking the rent oracle record whether the mint
/// record is exempt at the mint size.
pub fn process(
    program_id: &Pubkey,
    accounts: &mut Vec<AccountInfo>,
    decimals: u8,
    mint_authority: Pubkey,
    freeze_authority: Option<Pubkey>,
) -> (r: Result<(), ProgramError>)
    ensures
        outcome_matches(
            r,
            records_view(old(accounts)@),
            records_view(final(accounts)@),
            initialize_mint_outcome(
                program_id@,
                records_view(old(accounts)@),
                decimals,
                mint_authority@,
                opt_pubkey_view(freeze_authority),
                rent_for(records_view(old(accounts)@), 1, MINT_LEN as nat),
            ),
        ),
{
    let rent = rent_answer(accounts, 1, Mint::LEN);
    process_with_rent(program_id, accounts, decimals, mint_authority, freeze_authority, rent)
}

/// Initializes the mint given the rent oracle's answer.
pub fn process_with_rent(
    program_id: &Pubkey,
    accounts: &mut Vec<AccountInfo>,
    decimals: u8,
    mint_authority: Pubkey,
    freeze_authority: Option<Pubkey>,
    rent: Option<bool>,
) -> (r: Result<(), ProgramError>)
    ensures
        outcome_matches(
            r,
            records_view(old(accounts)@),
            records_view(final(accounts)@),
            initialize_mint_outcome(
                program_id@,
                records_view(old(accounts)@),
                decimals,
                mint_authority@,
                opt_pubkey_view(freeze_authority),
                rent,
            ),
        ),
{
    let ghost recs = records_view(accounts@);
    if accounts.len() < 2 {
        return Err(ProgramError::NotEnoughAccountKeys);
    }
    assert(recs[0] == accounts@[0]@);
    let exempt = match rent {
        Some(b) => b,
        None => {
            return Err(ProgramError::InvalidArgument);
        },
    };
    check_record(program_id, &accounts[0], true, Mint::LEN)?;
    if !exempt {
        return Err(ProgramError::Custom(TokenError::NotRentExempt));
    }
    let mut mint = Mint::unpack(accounts[0].data.as_slice())?;
    if mint.is_initialized {
        return Err(ProgramError::Custom(TokenError::AlreadyInitialized));
    }
    mint.mint_authority = COption::some(mint_authority);
    mint.supply = 0;
    mint.decimals = decimals;
    mint.is_initialized = true;
    mint.freeze_authority = COption::from(freeze_authority);
    write_data(accounts, 0, mint.pack());
    Ok(())
}

} // verus!
