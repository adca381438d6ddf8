//! The token account record: one balance of one mint, 165 bytes.
use vstd::prelude::*;

use crate::bytes::{le_u64, lemma_u64_value_round_trip, read_u64_le, u64_le, write_u64_le};
use crate::error::{ProgramError, TokenError};
use crate::pubkey::Pubkey;
use crate::state::{
    coption_key_bytes, coption_u64_bytes, decode_coption_key, decode_coption_u64, key_opt_wf,
    lemma_coption_key_round_trip, lemma_coption_u64_round_trip, opt_key, pack_coption_pubkey,
    pack_coption_u64, unpack_coption_pubkey, unpack_coption_u64, COption,
};

verus! {

/// Size of a packed token account.
pub const ACCOUNT_LEN: usize = 165;

/// Lifecycle of a token account.
#[derive(Clone, Copy, Debug, Default, PartialEq, Eq, Structural)]
pub enum AccountState {
    #[default]
    Uninitialized,
    Initialized,
    Frozen,
}

/// The state that a state byte encodes, if any.
pub open spec fn account_state_of(b: u8) -> Option<AccountState> {
    if b == 0 {
        Some(AccountState::Uninitialized)
    } else if b == 1 {
        Some(AccountState::Initialized)
    } else if b == 2 {
        Some(AccountState::Frozen)
    } else {
        None
    }
}

/// The byte that encodes a state.
pub open spec fn account_state_byte(s: AccountState) -> u8 {
    match s {
        AccountState::Uninitialized => 0,
        AccountState::Initialized => 1,
        AccountState::Frozen => 2,
    }
}

impl AccountState {
    /// Reads a state byte; any byte but 0, 1, 2 is `InvalidInstruction`.
    pub fn from_u8(value: u8) -> (r: Result<AccountState, ProgramError>)
        ensures
            match account_state_of(value) {
                Some(s) => r == Ok::<AccountState, ProgramError>(s),
                None => r == Err::<AccountState, ProgramError>(
                    ProgramError::Custom(TokenError::InvalidInstruction),
                ),
            },
    {
        match value {
            0 => Ok(AccountState::Uninitialized),
            1 => Ok(AccountState::Initialized),
            2 => Ok(AccountState::Frozen),
            _ => Err(ProgramError::Custom(TokenError::InvalidInstruction)),
        }
    }

    pub fn to_u8(self) -> (r: u8)
        ensures
            r == account_state_byte(self),
    {
        match self {
            AccountState::Uninitialized => 0,
            AccountState::Initialized => 1,
            AccountState::Frozen => 2,
        }
    }
}

/// A balance of one mint held for one owner, with an optional delegate
/// allowance, a freeze state, the reserved native marker and an optional
/// close authority.
#[derive(Clone, Copy, Debug, Default, PartialEq)]
pub struct Account {
    pub mint: Pubkey,
    pub owner: Pubkey,
    pub amount: u64,
    pub delegate: COption<Pubkey>,
    pub state: AccountState,
    pub is_native: COption<u64>,
    pub delegated_amount: u64,
    pub close_authority: COption<Pubkey>,
}

/// A token account as plain values.
pub struct AccountView {
    pub mint: Seq<u8>,
    pub owner: Seq<u8>,
    pub amount: u64,
    pub delegate: Option<Seq<u8>>,
    pub state: AccountState,
    pub is_native: Option<u64>,
    pub delegated_amount: u64,
    pub close_authority: Option<Seq<u8>>,
}

impl View for Account {
    type V = AccountView;

    open spec fn view(&self) -> AccountView {
        AccountView {
            mint: self.mint@,
            owner: self.owner@,
            amount: self.amount,
            delegate: opt_key(self.delegate),
            state: self.state,
            is_native: self.is_native.value,
            delegated_amount: self.delegated_amount,
            close_authority: opt_key(self.close_authority),
        }
    }
}

/// Every key of the view is 32 bytes long.
pub open spec fn account_view_wf(a: AccountView) -> bool {
    &&& a.mint.len() == 32
    &&& a.owner.len() == 32
    &&& key_opt_wf(a.delegate)
    &&& key_opt_wf(a.close_authority)
}

/// The packed layout: mint (32), owner (32), amount (8), delegate (36),
/// state (1), native marker (12), delegated amount (8), close authority (36).
pub open spec fn account_bytes(a: AccountView) -> Seq<u8> {
    a.mint + a.owner + u64_le(a.amount) + coption_key_bytes(a.delegate) + seq![
        account_state_byte(a.state),
    ] + coption_u64_bytes(a.is_native) + u64_le(a.delegated_amount) + coption_key_bytes(
        a.close_authority,
    )
}

/// Decodes the first 165 bytes of `s` as a token account; an illegal
/// optional tag or state byte is `InvalidInstruction`.
pub open spec fn decode_account(s: Seq<u8>) -> Result<AccountView, ProgramError> {
    let invalid = ProgramError::Custom(TokenError::InvalidInstruction);
    match (
        decode_coption_key(s.subrange(72, 108)),
        account_state_of(s[108]),
        decode_coption_u64(s.subrange(109, 121)),
        decode_coption_key(s.subrange(129, 165)),
    ) {
        (Ok(delegate), Some(state), Ok(is_native), Ok(close_authority)) => Ok(
            AccountView {
                mint: s.subrange(0, 32),
                owner: s.subrange(32, 64),
                amount: le_u64(s.subrange(64, 72)),
                delegate,
                state,
                is_native,
                delegated_amount: le_u64(s.subrange(121, 129)),
                close_authority,
            },
        ),
        _ => Err(invalid),
    }
}

/// Decodes a record's data as a token account, rejecting any length but 165.
pub open spec fn account_from_data(s: Seq<u8>) -> Result<AccountView, ProgramError> {
    if s.len() != ACCOUNT_LEN {
        Err(ProgramError::InvalidAccountData)
    } else {
        decode_account(s)
    }
}

/// Packing a well-formed token account and decoding the bytes gives it back.
pub proof fn lemma_account_round_trip(a: AccountView)
    requires
        account_view_wf(a),
    ensures
        account_bytes(a).len() == ACCOUNT_LEN,
        account_from_data(account_bytes(a)) == Ok::<AccountView, ProgramError>(a),
{
    let b = account_bytes(a);
    lemma_coption_key_round_trip(a.delegate);
    lemma_coption_key_round_trip(a.close_authority);
    lemma_coption_u64_round_trip(a.is_native);
    lemma_u64_value_round_trip(a.amount);
    lemma_u64_value_round_trip(a.delegated_amount);
    assert(b.subrange(0, 32) =~= a.mint);
    assert(b.subrange(32, 64) =~= a.owner);
    assert(b.subrange(64, 72) =~= u64_le(a.amount));
    assert(b.subrange(72, 108) =~= coption_key_bytes(a.delegate));
    assert(b[108] == account_state_byte(a.state));
    assert(b.subrange(109, 121) =~= coption_u64_bytes(a.is_native));
    assert(b.subrange(121, 129) =~= u64_le(a.delegated_amount));
    assert(b.subrange(129, 165) =~= coption_key_bytes(a.close_authority));
}

impl Account {
    pub const LEN: usize = 165;

    pub fn is_frozen(&self) -> (r: bool)
        ensures
            r == (self.state == AccountState::Frozen),
    {
        self.state == AccountState::Frozen
    }

    pub fn is_initialized(&self) -> (r: bool)
        ensures
            r == (self.state != AccountState::Uninitialized),
    {
        self.state != AccountState::Uninitialized
    }

    pub fn is_native(&self) -> (r: bool)
        ensures
            r == self.is_native.value is Some,
    {
        self.is_native.is_some()
    }

    /// Decodes the first 165 bytes of `input`.
    pub fn unpack(input: &[u8]) -> (r: Result<Account, ProgramError>)
        requires
            input.len() >= ACCOUNT_LEN,
        ensures
            match decode_account(input@) {
                Ok(a) => r is Ok && r->Ok_0@ == a,
                Err(e) => r == Err::<Account, ProgramError>(e),
            },
    {
        let delegate = unpack_coption_pubkey(input, 72)?;
        let state = AccountState::from_u8(input[108])?;
        let is_native = unpack_coption_u64(input, 109)?;
        let close_authority = unpack_coption_pubkey(input, 129)?;
        Ok(
            Account {
                mint: Pubkey::read_from(input, 0),
                owner: Pubkey::read_from(input, 32),
                amount: read_u64_le(input, 64),
                delegate,
                state,
                is_native,
                delegated_amount: read_u64_le(input, 121),
                close_authority,
            },
        )
    }

    /// Decodes `input`, which must be exactly 165 bytes long.
    pub fn unpack_from_slice(input: &[u8]) -> (r: Result<Account, ProgramError>)
        ensures
            match account_from_data(input@) {
                Ok(a) => r is Ok && r->Ok_0@ == a,
                Err(e) => r == Err::<Account, ProgramError>(e),
            },
    {
        if input.len() != Self::LEN {
            return Err(ProgramError::InvalidAccountData);
        }
        Self::unpack(input)
    }

    /// The 165 packed bytes of this account.
    pub fn pack(&self) -> (r: Vec<u8>)
        ensures
            r@ == account_bytes(self@),
    {
        let mut out: Vec<u8> = Vec::new();
        self.mint.write_to(&mut out);
        self.owner.write_to(&mut out);
        write_u64_le(&mut out, self.amount);
        pack_coption_pubkey(&self.delegate, &mut out);
        out.push(self.state.to_u8());
        pack_coption_u64(&self.is_native, &mut out);
        write_u64_le(&mut out, self.delegated_amount);
        pack_coption_pubkey(&self.close_authority, &mut out);
        assert(out@ =~= account_bytes(self@));
        out
    }

    /// Overwrites `dst`, which must be exactly 165 bytes long, with this account.
    pub fn pack_into_slice(&self, dst: &mut Vec<u8>) -> (r: Result<(), ProgramError>)
        ensures
            old(dst)@.len() != ACCOUNT_LEN ==> r == Err::<(), ProgramError>(
                ProgramError::InvalidAccountData,
            ) && final(dst)@ == old(dst)@,
            old(dst)@.len() == ACCOUNT_LEN ==> r is Ok && final(dst)@ == account_bytes(self@),
    {
        if dst.len() != Self::LEN {
            return Err(ProgramError::InvalidAccountData);
        }
        *dst = self.pack();
        Ok(())
    }
}

} // verus!
