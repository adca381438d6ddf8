//! The rent oracle: the host's rent sysvar record, read and asked through
//! the solana-program crate.
use vstd::prelude::*;

use crate::account_info::{AccountInfo, RecordView};
use crate::bytes::{le_u64, read_u64_le};

verus! {

/// The oracle's answer for a balance of `lamports` and `data_len` bytes when
/// its record has key `oracle_key` and data `oracle_data`: `None` when the
/// record does not read as the rent sysvar, else whether the balance is
/// rent-exempt.
pub uninterp spec fn rent_exemption_of(
    oracle_key: Seq<u8>,
    oracle_data: Seq<u8>,
    lamports: u64,
    data_len: nat,
) -> Option<bool>;

/// Relies on `Sysvar::from_account_info` for `Rent` (solana-sysvar), which
/// checks the record's key against the rent sysvar id and then decodes its
/// data with bincode, and on `Rent::is_exempt` (solana-rent) for the decoded
/// parameters. Both depend on the record's key and data and on the
/// arguments alone. `is_exempt` computes `(128 + data_len) *
/// lamports_per_byte_year` in `u64`; the rate is the first field of the
/// decoded parameters, bytes 0..8 of the data, and `requires` keeps that
/// product in range.
#[verifier::external_body]
pub(crate) fn rent_exemption(oracle: &AccountInfo, lamports: u64, data_len: usize) -> (r: Option<bool>)
    requires
        oracle.data@.len() >= 8 ==> (128 + data_len) * le_u64(oracle.data@.subrange(0, 8))
            <= u64::MAX,
    ensures
        r == rent_exemption_of(oracle.key@, oracle.data@, lamports, data_len as nat),
{
    let key = solana_program::pubkey::Pubkey::new_from_array(oracle.key.bytes);
    let owner = solana_program::pubkey::Pubkey::new_from_array(oracle.owner.bytes);
    let mut balance = oracle.lamports;
    let mut data = oracle.data.clone();
    let info = solana_program::account_info::AccountInfo::new(
        &key, oracle.is_signer, oracle.is_writable, &mut balance, &mut data, &owner, false, 0,
    );
    match <solana_program::rent::Rent as solana_program::sysvar::Sysvar>::from_account_info(&info) {
        Ok(rent) => Some(rent.is_exempt(lamports, data_len)),
        Err(_) => None,
    }
}

/// The rate that an oracle record declares stays small enough for the
/// exemption minimum of `len` bytes to be computed in `u64`.
pub open spec fn rate_fits(data: Seq<u8>, len: nat) -> bool {
    data.len() < 8 || (128 + len) * le_u64(data.subrange(0, 8)) <= u64::MAX
}

/// The answer this library takes from an oracle record: the oracle's, or
/// `None` (as for an unreadable oracle) when the declared rate is so large
/// that the exemption minimum would leave the range of `u64`.
pub open spec fn oracle_answer(oracle: RecordView, lamports: u64, len: nat) -> Option<bool> {
    if rate_fits(oracle.data, len) {
        rent_exemption_of(oracle.key, oracle.data, lamports, len)
    } else {
        None
    }
}

/// Asks the oracle record about a balance of `lamports` and `len` bytes.
pub fn ask_rent_oracle(oracle: &AccountInfo, lamports: u64, len: usize) -> (r: Option<bool>)
    ensures
        r == oracle_answer(oracle@, lamports, len as nat),
{
    if oracle.data.len() >= 8 {
        let rate = read_u64_le(oracle.data.as_slice(), 0);
        if rate != 0 {
            let n = len as u64;
            if n > u64::MAX - 128 {
                assert((128 + len) * rate > u64::MAX) by (nonlinear_arith)
                    requires
                        128 + len > u64::MAX,
                        rate >= 1,
                ;
                return None;
            }
            let size = n + 128;
            if size.checked_mul(rate).is_none() {
                return None;
            }
        } else {
            assert((128 + len) * rate == 0) by (nonlinear_arith)
                requires
                    rate == 0,
            ;
        }
    }
    assert(rate_fits(oracle@.data, len as nat));
    rent_exemption(oracle, lamports, len)
}

} // verus!
