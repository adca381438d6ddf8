//! The three persistent record kinds and the tagged-optional field codec
//! that they share.
pub mod account;
pub mod mint;
pub mod multisig;

pub use account::{Account, AccountState};
pub use mint::Mint;
pub use multisig::{Multisig, MAX_SIGNERS};

use vstd::prelude::*;

use crate::bytes::{
    le_u32, le_u64, lemma_u32_value_round_trip, lemma_u64_value_round_trip, read_u32_le,
    read_u64_le, u32_le, u64_le, write_u32_le, write_u64_le,
};
use crate::error::{ProgramError, TokenError};
use crate::pubkey::Pubkey;

verus! {

/// An optional value with a fixed on-wire layout: a 4-byte little-endian
/// tag (0 or 1) followed by a fixed-width body.
#[derive(Clone, Copy, Debug, Default, PartialEq, Eq)]
pub struct COption<T> {
    pub value: Option<T>,
}

impl<T> COption<T> {
    pub fn some(value: T) -> (r: Self)
        ensures
            r.value == Some(value),
    {
        COption { value: Some(value) }
    }

    pub fn none() -> (r: Self)
        ensures
            r.value == None::<T>,
    {
        COption { value: None }
    }

    pub fn is_some(&self) -> (r: bool)
        ensures
            r == self.value is Some,
    {
        match &self.value {
            Some(_) => true,
            None => false,
        }
    }

    pub fn is_none(&self) -> (r: bool)
        ensures
            r == self.value is None,
    {
        match &self.value {
            Some(_) => false,
            None => true,
        }
    }

    pub fn as_ref(&self) -> (r: Option<&T>)
        ensures
            r is Some <==> self.value is Some,
            r is Some ==> *r->0 == self.value->0,
    {
        match &self.value {
            Some(v) => Some(v),
            None => None,
        }
    }

    pub fn as_mut(&mut self) -> (r: Option<&mut T>)
        ensures
            r is Some <==> old(self).value is Some,
            r is Some ==> *r->0 == old(self).value->0,
            r is None ==> *final(self) == *old(self),
    {
        match &mut self.value {
            Some(v) => Some(v),
            None => None,
        }
    }

    pub fn unwrap(self) -> (r: T)
        requires
            self.value is Some,
        ensures
            self.value == Some(r),
    {
        self.value.unwrap()
    }

    pub fn unwrap_or(self, default: T) -> (r: T)
        ensures
            r == (match self.value {
                Some(v) => v,
                None => default,
            }),
    {
        match self.value {
            Some(v) => v,
            None => default,
        }
    }

    pub fn map<U, F: FnOnce(T) -> U>(self, f: F) -> (r: COption<U>)
        requires
            self.value is Some ==> f.requires((self.value->0,)),
        ensures
            r.value is Some <==> self.value is Some,
            self.value is Some ==> f.ensures((self.value->0,), r.value->0),
    {
        match self.value {
            Some(v) => COption { value: Some(f(v)) },
            None => COption { value: None },
        }
    }
}

impl<T> From<Option<T>> for COption<T> {
    fn from(value: Option<T>) -> (r: COption<T>)
        ensures
            r.value == value,
    {
        COption { value }
    }
}

impl<T> vstd::std_specs::convert::FromSpecImpl<Option<T>> for COption<T> {
    open spec fn obeys_from_spec() -> bool {
        true
    }

    open spec fn from_spec(value: Option<T>) -> COption<T> {
        COption { value }
    }
}

impl<T> From<COption<T>> for Option<T> {
    fn from(c: COption<T>) -> (r: Option<T>)
        ensures
            r == c.value,
    {
        c.value
    }
}

impl<T> vstd::std_specs::convert::FromSpecImpl<COption<T>> for Option<T> {
    open spec fn obeys_from_spec() -> bool {
        true
    }

    open spec fn from_spec(c: COption<T>) -> Option<T> {
        c.value
    }
}

/// The view of an optional key: its bytes, when present.
pub open spec fn opt_key(o: COption<Pubkey>) -> Option<Seq<u8>> {
    match o.value {
        Some(k) => Some(k@),
        None => None,
    }
}

pub open spec fn zeros(n: nat) -> Seq<u8> {
    Seq::new(n, |i: int| 0u8)
}

/// The 36 bytes of an optional key: tag 1 and the key, or tag 0 and zeros.
pub open spec fn coption_key_bytes(o: Option<Seq<u8>>) -> Seq<u8> {
    match o {
        Some(k) => u32_le(1) + k,
        None => u32_le(0) + zeros(32),
    }
}

/// Decodes the 36 bytes of an optional key; a tag other than 0 or 1 is
/// rejected with `InvalidInstruction`.
pub open spec fn decode_coption_key(s: Seq<u8>) -> Result<Option<Seq<u8>>, ProgramError> {
    let tag = le_u32(s.subrange(0, 4));
    if tag == 0 {
        Ok(None)
    } else if tag == 1 {
        Ok(Some(s.subrange(4, 36)))
    } else {
        Err(ProgramError::Custom(TokenError::InvalidInstruction))
    }
}

/// The 12 bytes of an optional `u64`: tag 1 and the value, or tag 0 and zeros.
pub open spec fn coption_u64_bytes(o: Option<u64>) -> Seq<u8> {
    match o {
        Some(v) => u32_le(1) + u64_le(v),
        None => u32_le(0) + zeros(8),
    }
}

/// Decodes the 12 bytes of an optional `u64`.
pub open spec fn decode_coption_u64(s: Seq<u8>) -> Result<Option<u64>, ProgramError> {
    let tag = le_u32(s.subrange(0, 4));
    if tag == 0 {
        Ok(None)
    } else if tag == 1 {
        Ok(Some(le_u64(s.subrange(4, 12))))
    } else {
        Err(ProgramError::Custom(TokenError::InvalidInstruction))
    }
}

/// A present key is 32 bytes long.
pub open spec fn key_opt_wf(o: Option<Seq<u8>>) -> bool {
    o matches Some(k) ==> k.len() == 32
}

/// Decoding the bytes of an optional key gives that optional key back.
pub proof fn lemma_coption_key_round_trip(o: Option<Seq<u8>>)
    requires
        key_opt_wf(o),
    ensures
        coption_key_bytes(o).len() == 36,
        decode_coption_key(coption_key_bytes(o)) == Ok::<Option<Seq<u8>>, ProgramError>(o),
{
    let b = coption_key_bytes(o);
    lemma_u32_value_round_trip(0);
    lemma_u32_value_round_trip(1);
    match o {
        Some(k) => {
            assert(b.subrange(0, 4) =~= u32_le(1));
            assert(b.subrange(4, 36) =~= k);
        },
        None => {
            assert(b.subrange(0, 4) =~= u32_le(0));
        },
    }
}

/// Decoding the bytes of an optional `u64` gives that optional value back.
pub proof fn lemma_coption_u64_round_trip(o: Option<u64>)
    ensures
        coption_u64_bytes(o).len() == 12,
        decode_coption_u64(coption_u64_bytes(o)) == Ok::<Option<u64>, ProgramError>(o),
{
    let b = coption_u64_bytes(o);
    lemma_u32_value_round_trip(0);
    lemma_u32_value_round_trip(1);
    match o {
        Some(v) => {
            lemma_u64_value_round_trip(v);
            assert(b.subrange(0, 4) =~= u32_le(1));
            assert(b.subrange(4, 12) =~= u64_le(v));
        },
        None => {
            assert(b.subrange(0, 4) =~= u32_le(0));
        },
    }
}

/// Reads the optional key held in `input[start..start + 36]`.
pub fn unpack_coption_pubkey(input: &[u8], start: usize) -> (r: Result<COption<Pubkey>, ProgramError>)
    requires
        start + 36 <= input.len(),
    ensures
        match decode_coption_key(input@.subrange(start as int, start + 36)) {
            Ok(o) => r is Ok && opt_key(r->Ok_0) == o,
            Err(e) => r == Err::<COption<Pubkey>, ProgramError>(e),
        },
{
    let ghost s = input@.subrange(start as int, start + 36);
    assert(s.subrange(0, 4) =~= input@.subrange(start as int, start + 4));
    assert(s.subrange(4, 36) =~= input@.subrange(start + 4, start + 36));
    let tag = read_u32_le(input, start);
    if tag == 0 {
        Ok(COption::none())
    } else if tag == 1 {
        Ok(COption::some(Pubkey::read_from(input, start + 4)))
    } else {
        Err(ProgramError::Custom(TokenError::InvalidInstruction))
    }
}

/// Appends the 36 bytes of an optional key.
pub fn pack_coption_pubkey(src: &COption<Pubkey>, out: &mut Vec<u8>)
    ensures
        final(out)@ == old(out)@ + coption_key_bytes(opt_key(*src)),
{
    match &src.value {
        Some(k) => {
            write_u32_le(out, 1);
            k.write_to(out);
            assert(out@ =~= old(out)@ + coption_key_bytes(opt_key(*src)));
        },
        None => {
            write_u32_le(out, 0);
            write_zeros(out, 32);
            assert(out@ =~= old(out)@ + coption_key_bytes(opt_key(*src)));
        },
    }
}

/// Reads the optional `u64` held in `input[start..start + 12]`.
pub fn unpack_coption_u64(input: &[u8], start: usize) -> (r: Result<COption<u64>, ProgramError>)
    requires
        start + 12 <= input.len(),
    ensures
        match decode_coption_u64(input@.subrange(start as int, start + 12)) {
            Ok(o) => r is Ok && r->Ok_0.value == o,
            Err(e) => r == Err::<COption<u64>, ProgramError>(e),
        },
{
    let ghost s = input@.subrange(start as int, start + 12);
    assert(s.subrange(0, 4) =~= input@.subrange(start as int, start + 4));
    assert(s.subrange(4, 12) =~= input@.subrange(start + 4, start + 12));
    let tag = read_u32_le(input, start);
    if tag == 0 {
        Ok(COption::none())
    } else if tag == 1 {
        Ok(COption::some(read_u64_le(input, start + 4)))
    } else {
        Err(ProgramError::Custom(TokenError::InvalidInstruction))
    }
}

/// Appends the 12 bytes of an optional `u64`.
pub fn pack_coption_u64(src: &COption<u64>, out: &mut Vec<u8>)
    ensures
        final(out)@ == old(out)@ + coption_u64_bytes(src.value),
{
    match src.value {
        Some(v) => {
            write_u32_le(out, 1);
            write_u64_le(out, v);
            assert(out@ =~= old(out)@ + coption_u64_bytes(src.value));
        },
        None => {
            write_u32_le(out, 0);
            write_zeros(out, 8);
            assert(out@ =~= old(out)@ + coption_u64_bytes(src.value));
        },
    }
}

/// Appends `n` zero bytes.
pub fn write_zeros(out: &mut Vec<u8>, n: usize)
    ensures
        final(out)@ == old(out)@ + zeros(n as nat),
{
    let mut i: usize = 0;
    while i < n
        invariant
            i <= n,
            out@ == old(out)@ + zeros(i as nat),
        decreases n - i,
    {
        out.push(0u8);
        assert(zeros((i + 1) as nat) =~= zeros(i as nat).push(0u8));
        i = i + 1;
    }
}

} // verus!
