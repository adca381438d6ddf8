//! InitializeMultisig: enrolls the trailing records as the signers of an
//! uninitialized multisig record.
use vstd::prelude::*;

use crate::account_info::{records_view, AccountInfo, RecordView};
use crate::error::{ProgramError, TokenError};
use crate::processor::{
    check_record, outcome_matches, record_check, rent_answer, rent_for, with_data, write_data,
};
use crate::pubkey::Pubkey;
use crate::state::multisig::{
    decode_multisig, multisig_bytes, Multisig, MultisigView, MAX_SIGNERS, MULTISIG_LEN,
};
use crate::state::zeros;

verus! {

/// The signer slots after enrolling the keys of `signers`: the first slots
/// hold their keys in order, the rest are zero.
pub open spec fn enrolled_slots(signers: Seq<RecordView>) -> Seq<Seq<u8>> {
    Seq::new(
        MAX_SIGNERS as nat,
        |i: int|
            if i < signers.len() {
                signers[i].key
            } else {
                zeros(32)
            },
    )
}

/// Records: multisig (written), rent oracle, then the `n` signers to enroll.
/// `n` must be 1 to 11 and `m` 1 to `n`, else `InvalidMultisigConfig`.
pub open spec fn initialize_multisig_outcome(
    program_id: Seq<u8>,
    recs: Seq<RecordView>,
    m: u8,
    rent: Option<bool>,
) -> Result<Seq<RecordView>, ProgramError> {
    let n = recs.len() - 2;
    if recs.len() < 2 {
        Err(ProgramError::NotEnoughAccountKeys)
    } else if rent is None {
        Err(ProgramError::InvalidArgument)
    } else if let Some(e) = record_check(program_id, recs[0], true, MULTISIG_LEN as nat) {
        Err(e)
    } else if rent == Some(false) {
        Err(ProgramError::Custom(TokenError::NotRentExempt))
    } else if n < 1 || n > MAX_SIGNERS || m < 1 || m > n {
        Err(ProgramError::Custom(TokenError::InvalidMultisigConfig))
    } else {
        match decode_multisig(recs[0].data) {
            Err(e) => Err(e),
            Ok(ms) => if ms.is_initialized {
                Err(ProgramError::Custom(TokenError::AlreadyInitialized))
            } else {
                Ok(
                    with_data(
                        recs,
                        0,
                        multisig_bytes(
                            MultisigView {
                                m,
                                n: n as u8,
                                is_initialized: true,
                                signers: enrolled_slots(recs.subrange(2, recs.len() as int)),
                            },
                        ),
                    ),
                )
            },
        }
    }
}

/// Initializes the multisig, asking the rent oracle record whether the
/// multisig record is exempt.
pub fn process(program_id: &Pubkey, accounts: &mut Vec<AccountInfo>, m: u8) -> (r: Result<(), ProgramError>)
    ensures
        outcome_matches(
            r,
            records_view(old(accounts)@),
            records_view(final(accounts)@),
            initialize_multisig_outcome(
                program_id@,
                records_view(old(accounts)@),
                m,
                rent_for(records_view(old(accounts)@), 1, MULTISIG_LEN as nat),
            ),
        ),
{
    let rent = rent_answer(accounts, 1, Multisig::LEN);
    process_with_rent(program_id, accounts, m, rent)
}

/// Initializes the multisig given the rent oracle's answer.
pub fn process_with_rent(
    program_id: &Pubkey,
    accounts: &mut Vec<AccountInfo>,
    m: u8,
    rent: Option<bool>,
) -> (r: Result<(), ProgramError>)
    ensures
        outcome_matches(
            r,
            records_view(old(accounts)@),
            records_view(final(accounts)@),
            initialize_multisig_outcome(program_id@, records_view(old(accounts)@), m, rent),
        ),
{
    let ghost recs = records_view(accounts@);
    if accounts.len() < 2 {
        return Err(ProgramError::NotEnoughAccountKeys);
    }
    assert(recs[0] == accounts@[0]@);
    let exempt = match rent {
        Some(b) => b,
        None => {
            return Err(ProgramError::InvalidArgument);
        },
    };
    check_record(program_id, &accounts[0], true, Multisig::LEN)?;
    if !exempt {
        return Err(ProgramError::Custom(TokenError::NotRentExempt));
    }
    let n = accounts.len() - 2;
    if n < 1 || n > MAX_SIGNERS {
        return Err(ProgramError::Custom(TokenError::InvalidMultisigConfig));
    }
    if m < 1 || m as usize > n {
        return Err(ProgramError::Custom(TokenError::InvalidMultisigConfig));
    }
    let mut multisig = Multisig::unpack(accounts[0].data.as_slice())?;
    if multisig.is_initialized {
        return Err(ProgramError::Custom(TokenError::AlreadyInitialized));
    }
    multisig.m = m;
    multisig.n = n as u8;
    multisig.is_initialized = true;
    let ghost signers = recs.subrange(2, recs.len() as int);
    let mut i: usize = 0;
    while i < MAX_SIGNERS
        invariant
            i <= MAX_SIGNERS,
            n == accounts@.len() - 2,
            1 <= n <= MAX_SIGNERS,
            recs == records_view(accounts@),
            signers == recs.subrange(2, recs.len() as int),
            forall|j: int| 0 <= j < i ==> (#[trigger] multisig.signers[j])@ == enrolled_slots(signers)[j],
            multisig.m == m,
            multisig.n == n,
            multisig.is_initialized,
        decreases MAX_SIGNERS - i,
    {
        if i < n {
            assert(signers[i as int] == accounts@[i + 2]@);
            multisig.signers[i] = accounts[i + 2].key;
        } else {
            let z = Pubkey { bytes: [0u8; 32] };
            assert(z@ =~= zeros(32));
            multisig.signers[i] = z;
        }
        i = i + 1;
    }
    assert(multisig@.signers =~= enrolled_slots(signers));
    assert(multisig@ == MultisigView {
        m,
        n: n as u8,
        is_initialized: true,
        signers: enrolled_slots(signers),
    });
    write_data(accounts, 0, multisig.pack());
    Ok(())
}

} // verus!
