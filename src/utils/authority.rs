//! Authority validation: a single signing key, or an M-of-N multisig
//! record whose enrolled signers sign alongside it.
use vstd::prelude::*;

use crate::account_info::{records_view, AccountInfo, RecordView};
use crate::error::{ProgramError, TokenError};
use crate::pubkey::Pubkey;
use crate::state::multisig::{multisig_from_data, Multisig, MultisigView, MULTISIG_LEN};

verus! {

/// An authority record is a multisig exactly when it has a multisig's size
/// and is owned by this program.
pub open spec fn is_multisig_record(program_id: Seq<u8>, auth: RecordView) -> bool {
    auth.data.len() == MULTISIG_LEN && auth.owner == program_id
}

/// Outcome of validating a single-signer authority.
pub open spec fn single_signer_outcome(expected: Seq<u8>, auth: RecordView) -> Result<(), ProgramError> {
    if auth.key != expected {
        Err(ProgramError::Custom(TokenError::InvalidAuthority))
    } else if !auth.is_signer {
        Err(ProgramError::MissingRequiredSignature)
    } else {
        Ok(())
    }
}

/// `key` is one of the first `n` enrolled signers.
pub open spec fn is_enrolled(ms: MultisigView, key: Seq<u8>) -> bool {
    exists|i: int| 0 <= i < ms.n && ms.signers[i] == key
}

/// The record signed and is enrolled in the multisig.
pub open spec fn counts_for(ms: MultisigView, r: RecordView) -> bool {
    r.is_signer && is_enrolled(ms, r.key)
}

/// How many of the records count as signatures for the multisig; a record
/// counts once per appearance.
pub open spec fn signature_count(ms: MultisigView, signers: Seq<RecordView>) -> nat
    decreases signers.len(),
{
    if signers.len() == 0 {
        0
    } else {
        signature_count(ms, signers.drop_last()) + if counts_for(ms, signers.last()) {
            1nat
        } else {
            0nat
        }
    }
}

/// Outcome of validating a multisig authority. The count is kept in a byte,
/// so more than 255 counted signatures is `Overflow`.
pub open spec fn multisig_outcome(
    program_id: Seq<u8>,
    expected: Seq<u8>,
    auth: RecordView,
    signers: Seq<RecordView>,
) -> Result<(), ProgramError> {
    if auth.key != expected {
        Err(ProgramError::Custom(TokenError::InvalidAuthority))
    } else if auth.owner != program_id {
        Err(ProgramError::Custom(TokenError::InvalidAccountOwner))
    } else {
        match multisig_from_data(auth.data) {
            Err(e) => Err(e),
            Ok(ms) => if !ms.is_initialized {
                Err(ProgramError::Custom(TokenError::UninitializedAccount))
            } else if signature_count(ms, signers) > 255 {
                Err(ProgramError::Custom(TokenError::Overflow))
            } else if signature_count(ms, signers) < ms.m {
                Err(ProgramError::Custom(TokenError::NotEnoughSigners))
            } else {
                Ok(())
            },
        }
    }
}

/// Outcome of validating `auth` (with trailing `signers`) against the
/// expected authority key.
pub open spec fn authority_outcome(
    program_id: Seq<u8>,
    expected: Seq<u8>,
    auth: RecordView,
    signers: Seq<RecordView>,
) -> Result<(), ProgramError> {
    if is_multisig_record(program_id, auth) {
        multisig_outcome(program_id, expected, auth, signers)
    } else {
        single_signer_outcome(expected, auth)
    }
}

/// Outcome of the owner-or-delegate choice: `Ok(false)` when the owner
/// validates, `Ok(true)` when only the delegate does, else `InvalidAuthority`.
pub open spec fn owner_or_delegate_outcome(
    program_id: Seq<u8>,
    owner: Seq<u8>,
    delegate: Option<Seq<u8>>,
    auth: RecordView,
    signers: Seq<RecordView>,
) -> Result<bool, ProgramError> {
    if authority_outcome(program_id, owner, auth, signers) is Ok {
        Ok(false)
    } else if delegate matches Some(d) && authority_outcome(program_id, d, auth, signers) is Ok {
        Ok(true)
    } else {
        Err(ProgramError::Custom(TokenError::InvalidAuthority))
    }
}

proof fn lemma_signature_count_monotone(ms: MultisigView, s: Seq<RecordView>, i: int, j: int)
    requires
        0 <= i <= j <= s.len(),
    ensures
        signature_count(ms, s.take(i)) <= signature_count(ms, s.take(j)),
    decreases j - i,
{
    if i < j {
        lemma_signature_count_monotone(ms, s, i, j - 1);
        assert(s.take(j).drop_last() =~= s.take(j - 1));
    }
}

/// Validates `authority_info` against `expected_authority`: as a multisig
/// when it has a multisig's size and this program owns it, else as a
/// single signer.
pub fn validate_authority(
    program_id: &Pubkey,
    expected_authority: &Pubkey,
    authority_info: &AccountInfo,
    signer_accounts: &[AccountInfo],
) -> (r: Result<(), ProgramError>)
    ensures
        r == authority_outcome(
            program_id@,
            expected_authority@,
            authority_info@,
            records_view(signer_accounts@),
        ),
{
    let is_multisig = authority_info.data.len() == MULTISIG_LEN && authority_info.owner
        == *program_id;
    if is_multisig {
        validate_multisig(program_id, expected_authority, authority_info, signer_accounts)
    } else {
        validate_single_signer(expected_authority, authority_info)
    }
}

/// The record must carry the expected key and have signed.
pub fn validate_single_signer(expected_authority: &Pubkey, authority_info: &AccountInfo) -> (r:
    Result<(), ProgramError>)
    ensures
        r == single_signer_outcome(expected_authority@, authority_info@),
{
    if authority_info.key != *expected_authority {
        return Err(ProgramError::Custom(TokenError::InvalidAuthority));
    }
    if !authority_info.is_signer {
        return Err(ProgramError::MissingRequiredSignature);
    }
    Ok(())
}

/// Whether `key` is among the first `n` signer slots of `multisig`.
fn enrolled(multisig: &Multisig, key: &Pubkey) -> (r: bool)
    requires
        multisig.n <= 11,
    ensures
        r == is_enrolled(multisig@, key@),
{
    let n = multisig.n as usize;
    let mut j: usize = 0;
    while j < n
        invariant
            n == multisig.n,
            n <= 11,
            j <= n,
            forall|k: int| 0 <= k < j ==> multisig@.signers[k] != key@,
        decreases n - j,
    {
        if multisig.signers[j] == *key {
            assert(multisig@.signers[j as int] == key@);
            return true;
        }
        j = j + 1;
    }
    false
}

/// The record must carry the expected key, be an initialized multisig
/// owned by this program, and at least `m` of the trailing records must
/// have signed with an enrolled key.
pub fn validate_multisig(
    program_id: &Pubkey,
    expected_authority: &Pubkey,
    multisig_info: &AccountInfo,
    signer_accounts: &[AccountInfo],
) -> (r: Result<(), ProgramError>)
    ensures
        r == multisig_outcome(
            program_id@,
            expected_authority@,
            multisig_info@,
            records_view(signer_accounts@),
        ),
{
    if multisig_info.key != *expected_authority {
        return Err(ProgramError::Custom(TokenError::InvalidAuthority));
    }
    if multisig_info.owner != *program_id {
        return Err(ProgramError::Custom(TokenError::InvalidAccountOwner));
    }
    let multisig = Multisig::unpack_from_slice(multisig_info.data.as_slice())?;
    if !multisig.is_initialized {
        return Err(ProgramError::Custom(TokenError::UninitializedAccount));
    }
    let ghost ms = multisig@;
    let ghost sv = records_view(signer_accounts@);
    let mut count: u8 = 0;
    let mut i: usize = 0;
    while i < signer_accounts.len()
        invariant
            ms == multisig@,
            multisig.n <= 11,
            ms.is_initialized,
            multisig_info.key@ == expected_authority@,
            multisig_info.owner@ == program_id@,
            multisig_from_data(multisig_info@.data) == Ok::<MultisigView, ProgramError>(ms),
            sv == records_view(signer_accounts@),
            i <= signer_accounts@.len(),
            count == signature_count(ms, sv.take(i as int)),
        decreases signer_accounts@.len() - i,
    {
        let signer = &signer_accounts[i];
        assert(sv.take(i + 1).drop_last() =~= sv.take(i as int));
        assert(sv[i as int] == signer@);
        if signer.is_signer && enrolled(&multisig, &signer.key) {
            if count == 255 {
                proof {
                    assert(sv.take(i + 1).last() == sv[i as int]);
                    assert(counts_for(ms, sv[i as int]));
                    assert(signature_count(ms, sv.take(i + 1)) == 256);
                    lemma_signature_count_monotone(ms, sv, i + 1, sv.len() as int);
                    assert(sv.take(sv.len() as int) =~= sv);
                }
                return Err(ProgramError::Custom(TokenError::Overflow));
            }
            count = count + 1;
        }
        i = i + 1;
    }
    assert(sv.take(i as int) =~= sv);
    if count < multisig.m {
        return Err(ProgramError::Custom(TokenError::NotEnoughSigners));
    }
    Ok(())
}

/// Validates the owner first and, when that fails and a delegate is set,
/// the delegate. Returns whether the delegate was the one that validated.
pub fn validate_owner_or_delegate(
    program_id: &Pubkey,
    account_owner: &Pubkey,
    account_delegate: Option<&Pubkey>,
    authority_info: &AccountInfo,
    signer_accounts: &[AccountInfo],
) -> (r: Result<bool, ProgramError>)
    ensures
        r == owner_or_delegate_outcome(
            program_id@,
            account_owner@,
            match account_delegate {
                Some(d) => Some(d@),
                None => None,
            },
            authority_info@,
            records_view(signer_accounts@),
        ),
{
    if validate_authority(program_id, account_owner, authority_info, signer_accounts).is_ok() {
        return Ok(false);
    }
    if let Some(delegate) = account_delegate {
        if validate_authority(program_id, delegate, authority_info, signer_accounts).is_ok() {
            return Ok(true);
        }
    }
    Err(ProgramError::Custom(TokenError::InvalidAuthority))
}

} // verus!
