//! The host's view of one record presented to an instruction.
use vstd::prelude::*;

use crate::pubkey::Pubkey;

verus! {

/// One record as the host presents it: its key, the program that owns it,
/// whether it signed the request and may be written, its lamport balance
/// and its data bytes.
#[derive(Debug)]
pub struct AccountInfo {
    pub key: Pubkey,
    pub owner: Pubkey,
    pub is_signer: bool,
    pub is_writable: bool,
    pub lamports: u64,
    pub data: Vec<u8>,
}

/// A record as plain values.
pub struct RecordView {
    pub key: Seq<u8>,
    pub owner: Seq<u8>,
    pub is_signer: bool,
    pub is_writable: bool,
    pub lamports: u64,
    pub data: Seq<u8>,
}

impl View for AccountInfo {
    type V = RecordView;

    open spec fn view(&self) -> RecordView {
        RecordView {
            key: self.key@,
            owner: self.owner@,
            is_signer: self.is_signer,
            is_writable: self.is_writable,
            lamports: self.lamports,
            data: self.data@,
        }
    }
}

/// The views of a list of records.
pub open spec fn records_view(v: Seq<AccountInfo>) -> Seq<RecordView> {
    Seq::new(v.len(), |i: int| v[i]@)
}

} // verus!
