//! ThawAccount: lifts a freeze on a token account.
use vstd::prelude::*;

use crate::account_info::{records_view, AccountInfo};
use crate::error::ProgramError;
use crate::processor::freeze_account::{set_state, set_state_outcome};
use crate::processor::outcome_matches;
use crate::pubkey::Pubkey;
use crate::state::account::AccountState;

verus! {

pub fn process(program_id: &Pubkey, accounts: &mut Vec<AccountInfo>) -> (r: Result<(), ProgramError>)
    ensures
        outcome_matches(
            r,
            records_view(old(accounts)@),
            records_view(final(accounts)@),
            set_state_outcome(program_id@, records_view(old(accounts)@), AccountState::Initialized),
        ),
{
    set_state(program_id, accounts, AccountState::Initialized)
}

} // verus!
