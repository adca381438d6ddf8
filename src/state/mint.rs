//! The mint record: one token type, 82 bytes.
use vstd::prelude::*;

use crate::bytes::{le_u64, lemma_u64_value_round_trip, read_u64_le, u64_le, write_u64_le};
use crate::error::ProgramError;
use crate::pubkey::Pubkey;
use crate::state::{
    coption_key_bytes, decode_coption_key, key_opt_wf, lemma_coption_key_round_trip, opt_key,
    pack_coption_pubkey, unpack_coption_pubkey, COption,
};

verus! {

/// Size of a packed mint.
pub const MINT_LEN: usize = 82;

/// A token type: who may create units, how many exist, the display
/// scale, the initialization guard and who may freeze accounts.
#[derive(Clone, Copy, Debug, Default, PartialEq)]
pub struct Mint {
    pub mint_authority: COption<Pubkey>,
    pub supply: u64,
    pub decimals: u8,
    pub is_initialized: bool,
    pub freeze_authority: COption<Pubkey>,
}

/// A mint as plain values.
pub struct MintView {
    pub mint_authority: Option<Seq<u8>>,
    pub supply: u64,
    pub decimals: u8,
    pub is_initialized: bool,
    pub freeze_authority: Option<Seq<u8>>,
}

impl View for Mint {
    type V = MintView;

    open spec fn view(&self) -> MintView {
        MintView {
            mint_authority: opt_key(self.mint_authority),
            supply: self.supply,
            decimals: self.decimals,
            is_initialized: self.is_initialized,
            freeze_authority: opt_key(self.freeze_authority),
        }
    }
}

/// Every present key of the view is 32 bytes long.
pub open spec fn mint_view_wf(m: MintView) -> bool {
    key_opt_wf(m.mint_authority) && key_opt_wf(m.freeze_authority)
}

/// The packed layout: authority (36), supply (8), decimals (1),
/// initialized flag (1), freeze authority (36).
pub open spec fn mint_bytes(m: MintView) -> Seq<u8> {
    coption_key_bytes(m.mint_authority) + u64_le(m.supply) + seq![m.decimals] + seq![
        if m.is_initialized {
            1u8
        } else {
            0u8
        },
    ] + coption_key_bytes(m.freeze_authority)
}

/// Decodes the first 82 bytes of `s` as a mint. Any non-zero flag byte
/// reads as initialized; an illegal optional tag is an error.
pub open spec fn decode_mint(s: Seq<u8>) -> Result<MintView, ProgramError> {
    match decode_coption_key(s.subrange(0, 36)) {
        Err(e) => Err(e),
        Ok(mint_authority) => match decode_coption_key(s.subrange(46, 82)) {
            Err(e) => Err(e),
            Ok(freeze_authority) => Ok(
                MintView {
                    mint_authority,
                    supply: le_u64(s.subrange(36, 44)),
                    decimals: s[44],
                    is_initialized: s[45] != 0,
                    freeze_authority,
                },
            ),
        },
    }
}

/// Decodes a record's data as a mint, rejecting any length but 82.
pub open spec fn mint_from_data(s: Seq<u8>) -> Result<MintView, ProgramError> {
    if s.len() != MINT_LEN {
        Err(ProgramError::InvalidAccountData)
    } else {
        decode_mint(s)
    }
}

/// Packing a well-formed mint and decoding the bytes gives the mint back.
pub proof fn lemma_mint_round_trip(m: MintView)
    requires
        mint_view_wf(m),
    ensures
        mint_bytes(m).len() == MINT_LEN,
        mint_from_data(mint_bytes(m)) == Ok::<MintView, ProgramError>(m),
{
    let b = mint_bytes(m);
    lemma_coption_key_round_trip(m.mint_authority);
    lemma_coption_key_round_trip(m.freeze_authority);
    lemma_u64_value_round_trip(m.supply);
    assert(b.subrange(0, 36) =~= coption_key_bytes(m.mint_authority));
    assert(b.subrange(36, 44) =~= u64_le(m.supply));
    assert(b.subrange(46, 82) =~= coption_key_bytes(m.freeze_authority));
}

impl Mint {
    pub const LEN: usize = 82;

    /// Decodes the first 82 bytes of `input`.
    pub fn unpack(input: &[u8]) -> (r: Result<Mint, ProgramError>)
        requires
            input.len() >= MINT_LEN,
        ensures
            match decode_mint(input@) {
                Ok(m) => r is Ok && r->Ok_0@ == m,
                Err(e) => r == Err::<Mint, ProgramError>(e),
            },
    {
        let mint_authority = unpack_coption_pubkey(input, 0)?;
        let freeze_authority = unpack_coption_pubkey(input, 46)?;
        let supply = read_u64_le(input, 36);
        Ok(
            Mint {
                mint_authority,
                supply,
                decimals: input[44],
                is_initialized: input[45] != 0,
                freeze_authority,
            },
        )
    }

    /// Decodes `input`, which must be exactly 82 bytes long.
    pub fn unpack_from_slice(input: &[u8]) -> (r: Result<Mint, ProgramError>)
        ensures
            match mint_from_data(input@) {
                Ok(m) => r is Ok && r->Ok_0@ == m,
                Err(e) => r == Err::<Mint, ProgramError>(e),
            },
    {
        if input.len() != Self::LEN {
            return Err(ProgramError::InvalidAccountData);
        }
        Self::unpack(input)
    }

    /// The 82 packed bytes of this mint.
    pub fn pack(&self) -> (r: Vec<u8>)
        ensures
            r@ == mint_bytes(self@),
    {
        let mut out: Vec<u8> = Vec::new();
        pack_coption_pubkey(&self.mint_authority, &mut out);
        write_u64_le(&mut out, self.supply);
        out.push(self.decimals);
        out.push(if self.is_initialized { 1u8 } else { 0u8 });
        pack_coption_pubkey(&self.freeze_authority, &mut out);
        assert(out@ =~= mint_bytes(self@));
        out
    }

    /// Overwrites `dst`, which must be exactly 82 bytes long, with this mint.
    pub fn pack_into_slice(&self, dst: &mut Vec<u8>) -> (r: Result<(), ProgramError>)
        ensures
            old(dst)@.len() != MINT_LEN ==> r == Err::<(), ProgramError>(ProgramError::InvalidAccountData)
                && final(dst)@ == old(dst)@,
            old(dst)@.len() == MINT_LEN ==> r is Ok && final(dst)@ == mint_bytes(self@),
    {
        if dst.len() != Self::LEN {
            return Err(ProgramError::InvalidAccountData);
        }
        *dst = self.pack();
        Ok(())
    }
}

} // verus!
