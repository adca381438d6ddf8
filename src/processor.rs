//! The instruction handlers and the dispatcher that routes decoded
//! instructions to them.
pub mod approve;
pub mod burn;
pub mod close_account;
pub mod freeze_account;
pub mod initialize_account;
pub mod initialize_mint;
pub mod initialize_multisig;
pub mod mint_to;
pub mod revoke;
pub mod set_authority;
pub mod thaw_account;
pub mod transfer;

use vstd::prelude::*;

use crate::account_info::{records_view, AccountInfo, RecordView};
use crate::error::{ProgramError, TokenError};
use crate::instruction::{decode_instruction, InstructionView, TokenInstruction};
use crate::pubkey::Pubkey;
use crate::state::account::{Account, AccountState, ACCOUNT_LEN};
use crate::state::mint::{Mint, MINT_LEN};
use crate::state::multisig::{Multisig, MULTISIG_LEN};
use crate::rent::{ask_rent_oracle, oracle_answer};
use crate::utils::assertions::{assert_data_length, assert_owned_by, assert_writable};

verus! {

/// The outcome of one decoded instruction on the presented records. An
/// initialization asks the rent oracle record (record 1, or record 3 for a
/// token account) about record 0 at the size of the kind it initializes.
pub open spec fn instruction_outcome(
    program_id: Seq<u8>,
    recs: Seq<RecordView>,
    ix: InstructionView,
) -> Result<Seq<RecordView>, ProgramError> {
    match ix {
        InstructionView::InitializeMint { decimals, mint_authority, freeze_authority } =>
            initialize_mint::initialize_mint_outcome(
            program_id,
            recs,
            decimals,
            mint_authority,
            freeze_authority,
            rent_for(recs, 1, MINT_LEN as nat),
        ),
        InstructionView::InitializeAccount => initialize_account::initialize_account_outcome(
            program_id,
            recs,
            rent_for(recs, 3, ACCOUNT_LEN as nat),
        ),
        InstructionView::InitializeMultisig { m } =>
            initialize_multisig::initialize_multisig_outcome(
            program_id,
            recs,
            m,
            rent_for(recs, 1, MULTISIG_LEN as nat),
        ),
        InstructionView::Transfer { amount } => transfer::transfer_outcome(program_id, recs, amount),
        InstructionView::Approve { amount } => approve::approve_outcome(program_id, recs, amount),
        InstructionView::Revoke => revoke::revoke_outcome(program_id, recs),
        InstructionView::SetAuthority { authority_type, new_authority } =>
            set_authority::set_authority_outcome(program_id, recs, authority_type, new_authority),
        InstructionView::MintTo { amount } => mint_to::mint_to_outcome(program_id, recs, amount),
        InstructionView::Burn { amount } => burn::burn_outcome(program_id, recs, amount),
        InstructionView::CloseAccount => close_account::close_account_outcome(program_id, recs),
        InstructionView::FreezeAccount => freeze_account::set_state_outcome(
            program_id,
            recs,
            AccountState::Frozen,
        ),
        InstructionView::ThawAccount => freeze_account::set_state_outcome(
            program_id,
            recs,
            AccountState::Initialized,
        ),
    }
}

/// The outcome of instruction bytes on the presented records: a decoding
/// failure, or the decoded instruction's outcome.
pub open spec fn process_outcome(
    program_id: Seq<u8>,
    recs: Seq<RecordView>,
    data: Seq<u8>,
) -> Result<Seq<RecordView>, ProgramError> {
    match decode_instruction(data) {
        Err(e) => Err(e),
        Ok(ix) => instruction_outcome(program_id, recs, ix),
    }
}

/// The engine's entry point.
pub struct Processor;

impl Processor {
    /// Decodes the instruction and runs its handler on the records.
    #[verifier::spinoff_prover]
    #[verifier::rlimit(60)]
    pub fn process(
        program_id: &Pubkey,
        accounts: &mut Vec<AccountInfo>,
        instruction_data: &[u8],
    ) -> (r: Result<(), ProgramError>)
        ensures
            outcome_matches(
                r,
                records_view(old(accounts)@),
                records_view(final(accounts)@),
                process_outcome(program_id@, records_view(old(accounts)@), instruction_data@),
            ),
    {
        let ghost recs = records_view(accounts@);
        let instruction = match TokenInstruction::unpack(instruction_data) {
            Ok(ix) => ix,
            Err(e) => {
                assert(outcome_matches(
                    Err(e),
                    recs,
                    recs,
                    process_outcome(program_id@, recs, instruction_data@),
                ));
                return Err(e);
            },
        };
        let r = match instruction {
            TokenInstruction::InitializeMint { decimals, mint_authority, freeze_authority } => {
                let rent = rent_answer(accounts, 1, Mint::LEN);
                initialize_mint::process_with_rent(
                    program_id,
                    accounts,
                    decimals,
                    mint_authority,
                    freeze_authority,
                    rent,
                )
            },
            TokenInstruction::InitializeAccount => {
                let rent = rent_answer(accounts, 3, Account::LEN);
                initialize_account::process_with_rent(program_id, accounts, rent)
            },
            TokenInstruction::InitializeMultisig { m } => {
                let rent = rent_answer(accounts, 1, Multisig::LEN);
                initialize_multisig::process_with_rent(program_id, accounts, m, rent)
            },
            TokenInstruction::Transfer { amount } => transfer::process(program_id, accounts, amount),
            TokenInstruction::Approve { amount } => approve::process(program_id, accounts, amount),
            TokenInstruction::Revoke => revoke::process(program_id, accounts),
            TokenInstruction::SetAuthority { authority_type, new_authority } => set_authority::process(
                program_id,
                accounts,
                authority_type,
                new_authority,
            ),
            TokenInstruction::MintTo { amount } => mint_to::process(program_id, accounts, amount),
            TokenInstruction::Burn { amount } => burn::process(program_id, accounts, amount),
            TokenInstruction::CloseAccount => close_account::process(program_id, accounts),
            TokenInstruction::FreezeAccount => freeze_account::process(program_id, accounts),
            TokenInstruction::ThawAccount => thaw_account::process(program_id, accounts),
        };
        assert(outcome_matches(
            r,
            recs,
            records_view(accounts@),
            process_outcome(program_id@, recs, instruction_data@),
        ));
        r
    }
}

/// The records after record `i`'s data is replaced.
pub open spec fn with_data(recs: Seq<RecordView>, i: int, data: Seq<u8>) -> Seq<RecordView> {
    recs.update(i, RecordView { data, ..recs[i] })
}

/// The records presented after the first `from`: the signers that a
/// multisig authority is checked against.
pub open spec fn trailing(recs: Seq<RecordView>, from: int) -> Seq<RecordView> {
    recs.subrange(from, recs.len() as int)
}

/// What a handler did, against what its outcome says: on success the
/// records hold the outcome's values; on failure the error is the outcome's
/// and no record changed.
pub open spec fn outcome_matches(
    r: Result<(), ProgramError>,
    before: Seq<RecordView>,
    after: Seq<RecordView>,
    outcome: Result<Seq<RecordView>, ProgramError>,
) -> bool {
    match outcome {
        Ok(recs) => r is Ok && after == recs,
        Err(e) => r == Err::<(), ProgramError>(e) && after == before,
    }
}

/// The preamble for a record of one of the program's kinds: owned by the
/// program, writable when it will be written, and of the kind's size.
pub open spec fn record_check(program_id: Seq<u8>, r: RecordView, writable: bool, len: nat) -> Option<
    ProgramError,
> {
    if r.owner != program_id {
        Some(ProgramError::Custom(TokenError::InvalidAccountOwner))
    } else if writable && !r.is_writable {
        Some(ProgramError::InvalidAccountData)
    } else if r.data.len() != len {
        Some(ProgramError::Custom(TokenError::InvalidAccountDataLength))
    } else {
        None
    }
}

/// Runs the preamble that `record_check` describes.
pub fn check_record(program_id: &Pubkey, info: &AccountInfo, writable: bool, len: usize) -> (r: Result<
    (),
    ProgramError,
>)
    ensures
        r == (match record_check(program_id@, info@, writable, len as nat) {
            Some(e) => Err::<(), ProgramError>(e),
            None => Ok(()),
        }),
{
    assert_owned_by(info, program_id)?;
    if writable {
        assert_writable(info)?;
    }
    assert_data_length(info, len)
}

/// The records from position `from` on.
pub fn signers_from(accounts: &Vec<AccountInfo>, from: usize) -> (r: &[AccountInfo])
    requires
        from <= accounts@.len(),
    ensures
        records_view(r@) == trailing(records_view(accounts@), from as int),
{
    let r = vstd::slice::slice_subrange(accounts.as_slice(), from, accounts.len());
    assert(records_view(r@) =~= trailing(records_view(accounts@), from as int));
    r
}

/// The rent oracle's answer for an initialization whose oracle is record
/// `oracle`: about record 0's balance at the size `len` of the kind being
/// initialized, or `None` when the oracle record is missing.
pub open spec fn rent_for(recs: Seq<RecordView>, oracle: int, len: nat) -> Option<bool> {
    if 0 < oracle < recs.len() {
        oracle_answer(recs[oracle], recs[0].lamports, len)
    } else {
        None
    }
}

/// Asks the oracle in record `oracle` about record 0 at `len` bytes.
pub(crate) fn rent_answer(accounts: &Vec<AccountInfo>, oracle: usize, len: usize) -> (r: Option<bool>)
    requires
        oracle > 0,
    ensures
        r == rent_for(records_view(accounts@), oracle as int, len as nat),
{
    if accounts.len() <= oracle {
        return None;
    }
    ask_rent_oracle(&accounts[oracle], accounts[0].lamports, len)
}

/// Replaces the data of record `i`.
pub fn write_data(accounts: &mut Vec<AccountInfo>, i: usize, data: Vec<u8>)
    requires
        i < old(accounts)@.len(),
    ensures
        final(accounts)@.len() == old(accounts)@.len(),
        records_view(final(accounts)@) == with_data(records_view(old(accounts)@), i as int, data@),
{
    accounts[i].data = data;
    assert(records_view(accounts@) =~= with_data(records_view(old(accounts)@), i as int, data@));
}

} // verus!
