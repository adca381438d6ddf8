//! The instruction wire format: a one-byte discriminant (0..=11) and a
//! payload that depends on it.
use vstd::prelude::*;

use crate::bytes::{le_u64, lemma_u64_value_round_trip, read_u64_le, u64_le, write_u64_le};
use crate::error::{ProgramError, TokenError};
use crate::pubkey::Pubkey;

verus! {

/// Which authority `SetAuthority` changes.
#[derive(Clone, Copy, Debug, PartialEq, Eq, Structural)]
pub enum AuthorityType {
    /// Who may mint (on a mint).
    MintTokens,
    /// Who may freeze and thaw accounts (on a mint).
    FreezeAccount,
    /// The owner of a token account.
    AccountOwner,
    /// Who may close a token account.
    CloseAccount,
}

/// The authority type that a byte encodes, if any.
pub open spec fn authority_type_of(b: u8) -> Option<AuthorityType> {
    if b == 0 {
        Some(AuthorityType::MintTokens)
    } else if b == 1 {
        Some(AuthorityType::FreezeAccount)
    } else if b == 2 {
        Some(AuthorityType::AccountOwner)
    } else if b == 3 {
        Some(AuthorityType::CloseAccount)
    } else {
        None
    }
}

/// The byte that encodes an authority type.
pub open spec fn authority_type_byte(t: AuthorityType) -> u8 {
    match t {
        AuthorityType::MintTokens => 0,
        AuthorityType::FreezeAccount => 1,
        AuthorityType::AccountOwner => 2,
        AuthorityType::CloseAccount => 3,
    }
}

impl AuthorityType {
    /// Reads an authority type byte; any byte but 0..=3 is `InvalidInstruction`.
    pub fn from_u8(value: u8) -> (r: Result<AuthorityType, ProgramError>)
        ensures
            match authority_type_of(value) {
                Some(t) => r == Ok::<AuthorityType, ProgramError>(t),
                None => r == Err::<AuthorityType, ProgramError>(
                    ProgramError::Custom(TokenError::InvalidInstruction),
                ),
            },
    {
        match value {
            0 => Ok(AuthorityType::MintTokens),
            1 => Ok(AuthorityType::FreezeAccount),
            2 => Ok(AuthorityType::AccountOwner),
            3 => Ok(AuthorityType::CloseAccount),
            _ => Err(ProgramError::Custom(TokenError::InvalidInstruction)),
        }
    }

    pub fn to_u8(self) -> (r: u8)
        ensures
            r == authority_type_byte(self),
    {
        match self {
            AuthorityType::MintTokens => 0,
            AuthorityType::FreezeAccount => 1,
            AuthorityType::AccountOwner => 2,
            AuthorityType::CloseAccount => 3,
        }
    }
}

/// The twelve instructions and their payloads.
#[derive(Clone, Debug, PartialEq)]
pub enum TokenInstruction {
    InitializeMint { decimals: u8, mint_authority: Pubkey, freeze_authority: Option<Pubkey> },
    InitializeAccount,
    InitializeMultisig { m: u8 },
    Transfer { amount: u64 },
    Approve { amount: u64 },
    Revoke,
    SetAuthority { authority_type: AuthorityType, new_authority: Option<Pubkey> },
    MintTo { amount: u64 },
    Burn { amount: u64 },
    CloseAccount,
    FreezeAccount,
    ThawAccount,
}

/// An instruction as plain values.
pub enum InstructionView {
    InitializeMint { decimals: u8, mint_authority: Seq<u8>, freeze_authority: Option<Seq<u8>> },
    InitializeAccount,
    InitializeMultisig { m: u8 },
    Transfer { amount: u64 },
    Approve { amount: u64 },
    Revoke,
    SetAuthority { authority_type: AuthorityType, new_authority: Option<Seq<u8>> },
    MintTo { amount: u64 },
    Burn { amount: u64 },
    CloseAccount,
    FreezeAccount,
    ThawAccount,
}

pub open spec fn opt_pubkey_view(o: Option<Pubkey>) -> Option<Seq<u8>> {
    match o {
        Some(k) => Some(k@),
        None => None,
    }
}

impl View for TokenInstruction {
    type V = InstructionView;

    open spec fn view(&self) -> InstructionView {
        match *self {
            TokenInstruction::InitializeMint { decimals, mint_authority, freeze_authority } =>
                InstructionView::InitializeMint {
                decimals,
                mint_authority: mint_authority@,
                freeze_authority: opt_pubkey_view(freeze_authority),
            },
            TokenInstruction::InitializeAccount => InstructionView::InitializeAccount,
            TokenInstruction::InitializeMultisig { m } => InstructionView::InitializeMultisig { m },
            TokenInstruction::Transfer { amount } => InstructionView::Transfer { amount },
            TokenInstruction::Approve { amount } => InstructionView::Approve { amount },
            TokenInstruction::Revoke => InstructionView::Revoke,
            TokenInstruction::SetAuthority { authority_type, new_authority } =>
                InstructionView::SetAuthority {
                authority_type,
                new_authority: opt_pubkey_view(new_authority),
            },
            TokenInstruction::MintTo { amount } => InstructionView::MintTo { amount },
            TokenInstruction::Burn { amount } => InstructionView::Burn { amount },
            TokenInstruction::CloseAccount => InstructionView::CloseAccount,
            TokenInstruction::FreezeAccount => InstructionView::FreezeAccount,
            TokenInstruction::ThawAccount => InstructionView::ThawAccount,
        }
    }
}

/// Every key the instruction carries is 32 bytes long.
pub open spec fn instruction_view_wf(v: InstructionView) -> bool {
    match v {
        InstructionView::InitializeMint { mint_authority, freeze_authority, .. } =>
            mint_authority.len() == 32 && (freeze_authority matches Some(k) ==> k.len() == 32),
        InstructionView::SetAuthority { new_authority, .. } => new_authority matches Some(k)
            ==> k.len() == 32,
        _ => true,
    }
}

/// A one-byte presence prefix, followed by the key when present.
pub open spec fn opt_key_prefix_bytes(o: Option<Seq<u8>>) -> Seq<u8> {
    match o {
        Some(k) => seq![1u8] + k,
        None => seq![0u8],
    }
}

/// The wire bytes of an instruction.
pub open spec fn instruction_bytes(v: InstructionView) -> Seq<u8> {
    match v {
        InstructionView::InitializeMint { decimals, mint_authority, freeze_authority } => seq![
            0u8,
            decimals,
        ] + mint_authority + opt_key_prefix_bytes(freeze_authority),
        InstructionView::InitializeAccount => seq![1u8],
        InstructionView::InitializeMultisig { m } => seq![2u8, m],
        InstructionView::Transfer { amount } => seq![3u8] + u64_le(amount),
        InstructionView::Approve { amount } => seq![4u8] + u64_le(amount),
        InstructionView::Revoke => seq![5u8],
        InstructionView::SetAuthority { authority_type, new_authority } => seq![
            6u8,
            authority_type_byte(authority_type),
        ] + opt_key_prefix_bytes(new_authority),
        InstructionView::MintTo { amount } => seq![7u8] + u64_le(amount),
        InstructionView::Burn { amount } => seq![8u8] + u64_le(amount),
        InstructionView::CloseAccount => seq![9u8],
        InstructionView::FreezeAccount => seq![10u8],
        InstructionView::ThawAccount => seq![11u8],
    }
}

/// The amount carried in `s[1..9]`, if the payload is long enough.
pub open spec fn decode_amount(s: Seq<u8>) -> Option<u64> {
    if s.len() < 9 {
        None
    } else {
        Some(le_u64(s.subrange(1, 9)))
    }
}

/// Decodes instruction bytes. An empty input, an unknown discriminant, a
/// short payload, an unknown authority type or a presence prefix other
/// than 0 or 1 is `InvalidInstruction`; bytes past the payload are ignored.
pub open spec fn decode_instruction(s: Seq<u8>) -> Result<InstructionView, ProgramError> {
    let invalid = Err(ProgramError::Custom(TokenError::InvalidInstruction));
    if s.len() == 0 {
        invalid
    } else if s[0] == 0 {
        if s.len() < 35 {
            invalid
        } else if s[34] == 1 {
            if s.len() < 67 {
                invalid
            } else {
                Ok(
                    InstructionView::InitializeMint {
                        decimals: s[1],
                        mint_authority: s.subrange(2, 34),
                        freeze_authority: Some(s.subrange(35, 67)),
                    },
                )
            }
        } else if s[34] == 0 {
            Ok(
                InstructionView::InitializeMint {
                    decimals: s[1],
                    mint_authority: s.subrange(2, 34),
                    freeze_authority: None,
                },
            )
        } else {
            invalid
        }
    } else if s[0] == 1 {
        Ok(InstructionView::InitializeAccount)
    } else if s[0] == 2 {
        if s.len() < 2 {
            invalid
        } else {
            Ok(InstructionView::InitializeMultisig { m: s[1] })
        }
    } else if s[0] == 3 || s[0] == 4 || s[0] == 7 || s[0] == 8 {
        match decode_amount(s) {
            None => invalid,
            Some(amount) => Ok(
                if s[0] == 3 {
                    InstructionView::Transfer { amount }
                } else if s[0] == 4 {
                    InstructionView::Approve { amount }
                } else if s[0] == 7 {
                    InstructionView::MintTo { amount }
                } else {
                    InstructionView::Burn { amount }
                },
            ),
        }
    } else if s[0] == 5 {
        Ok(InstructionView::Revoke)
    } else if s[0] == 6 {
        if s.len() < 3 {
            invalid
        } else {
            match authority_type_of(s[1]) {
                None => invalid,
                Some(authority_type) => if s[2] == 1 {
                    if s.len() < 35 {
                        invalid
                    } else {
                        Ok(
                            InstructionView::SetAuthority {
                                authority_type,
                                new_authority: Some(s.subrange(3, 35)),
                            },
                        )
                    }
                } else if s[2] == 0 {
                    Ok(InstructionView::SetAuthority { authority_type, new_authority: None })
                } else {
                    invalid
                },
            }
        }
    } else if s[0] == 9 {
        Ok(InstructionView::CloseAccount)
    } else if s[0] == 10 {
        Ok(InstructionView::FreezeAccount)
    } else if s[0] == 11 {
        Ok(InstructionView::ThawAccount)
    } else {
        invalid
    }
}

/// A decoded instruction carries only 32-byte keys.
pub proof fn lemma_decoded_instruction_wf(s: Seq<u8>)
    requires
        decode_instruction(s) is Ok,
    ensures
        instruction_view_wf(decode_instruction(s)->Ok_0),
{
}

/// Packing a well-formed instruction and decoding the bytes gives it back.
pub proof fn lemma_instruction_round_trip(v: InstructionView)
    requires
        instruction_view_wf(v),
    ensures
        decode_instruction(instruction_bytes(v)) == Ok::<InstructionView, ProgramError>(v),
{
    let b = instruction_bytes(v);
    match v {
        InstructionView::InitializeMint { decimals, mint_authority, freeze_authority } => {
            assert(b.subrange(2, 34) =~= mint_authority);
            if let Some(k) = freeze_authority {
                assert(b.subrange(35, 67) =~= k);
            }
        },
        InstructionView::Transfer { amount } => {
            lemma_u64_value_round_trip(amount);
            assert(b.subrange(1, 9) =~= u64_le(amount));
        },
        InstructionView::Approve { amount } => {
            lemma_u64_value_round_trip(amount);
            assert(b.subrange(1, 9) =~= u64_le(amount));
        },
        InstructionView::MintTo { amount } => {
            lemma_u64_value_round_trip(amount);
            assert(b.subrange(1, 9) =~= u64_le(amount));
        },
        InstructionView::Burn { amount } => {
            lemma_u64_value_round_trip(amount);
            assert(b.subrange(1, 9) =~= u64_le(amount));
        },
        InstructionView::SetAuthority { authority_type, new_authority } => {
            if let Some(k) = new_authority {
                assert(b.subrange(3, 35) =~= k);
            }
        },
        _ => {},
    }
}

/// Reads the optional key that follows a presence prefix at `input[at]`.
fn unpack_prefixed_key(input: &[u8], at: usize) -> (r: Result<Option<Pubkey>, ProgramError>)
    requires
        at < input.len(),
        at + 33 <= usize::MAX,
    ensures
        input@[at as int] == 1 && input.len() >= at + 33 ==> r is Ok && opt_pubkey_view(r->Ok_0)
            == Some(input@.subrange(at + 1, at + 33)),
        input@[at as int] == 0 ==> r == Ok::<Option<Pubkey>, ProgramError>(None),
        (input@[at as int] == 1 && input.len() < at + 33) || input@[at as int] > 1 ==> r == Err::<
            Option<Pubkey>,
            ProgramError,
        >(ProgramError::Custom(TokenError::InvalidInstruction)),
{
    if input[at] == 1 {
        if input.len() < at + 33 {
            return Err(ProgramError::Custom(TokenError::InvalidInstruction));
        }
        Ok(Some(Pubkey::read_from(input, at + 1)))
    } else if input[at] == 0 {
        Ok(None)
    } else {
        Err(ProgramError::Custom(TokenError::InvalidInstruction))
    }
}

/// Reads the amount carried in `input[1..9]`.
fn unpack_amount(input: &[u8]) -> (r: Result<u64, ProgramError>)
    ensures
        match decode_amount(input@) {
            Some(a) => r == Ok::<u64, ProgramError>(a),
            None => r == Err::<u64, ProgramError>(ProgramError::Custom(TokenError::InvalidInstruction)),
        },
{
    if input.len() < 9 {
        return Err(ProgramError::Custom(TokenError::InvalidInstruction));
    }
    Ok(read_u64_le(input, 1))
}

/// Appends a presence prefix and, when present, the key.
fn pack_prefixed_key(o: &Option<Pubkey>, out: &mut Vec<u8>)
    ensures
        final(out)@ == old(out)@ + opt_key_prefix_bytes(opt_pubkey_view(*o)),
{
    match o {
        Some(k) => {
            out.push(1u8);
            k.write_to(out);
        },
        None => {
            out.push(0u8);
        },
    }
    assert(out@ =~= old(out)@ + opt_key_prefix_bytes(opt_pubkey_view(*o)));
}

impl TokenInstruction {
    /// Decodes instruction bytes.
    pub fn unpack(input: &[u8]) -> (r: Result<TokenInstruction, ProgramError>)
        ensures
            match decode_instruction(input@) {
                Ok(v) => r is Ok && r->Ok_0@ == v,
                Err(e) => r == Err::<TokenInstruction, ProgramError>(e),
            },
    {
        if input.len() == 0 {
            return Err(ProgramError::Custom(TokenError::InvalidInstruction));
        }
        let discriminant = input[0];
        match discriminant {
            0 => {
                if input.len() < 35 {
                    return Err(ProgramError::Custom(TokenError::InvalidInstruction));
                }
                let decimals = input[1];
                let mint_authority = Pubkey::read_from(input, 2);
                let freeze_authority = unpack_prefixed_key(input, 34)?;
                Ok(TokenInstruction::InitializeMint { decimals, mint_authority, freeze_authority })
            },
            1 => Ok(TokenInstruction::InitializeAccount),
            2 => {
                if input.len() < 2 {
                    return Err(ProgramError::Custom(TokenError::InvalidInstruction));
                }
                Ok(TokenInstruction::InitializeMultisig { m: input[1] })
            },
            3 => Ok(TokenInstruction::Transfer { amount: unpack_amount(input)? }),
            4 => Ok(TokenInstruction::Approve { amount: unpack_amount(input)? }),
            5 => Ok(TokenInstruction::Revoke),
            6 => {
                if input.len() < 3 {
                    return Err(ProgramError::Custom(TokenError::InvalidInstruction));
                }
                let authority_type = AuthorityType::from_u8(input[1])?;
                let new_authority = unpack_prefixed_key(input, 2)?;
                Ok(TokenInstruction::SetAuthority { authority_type, new_authority })
            },
            7 => Ok(TokenInstruction::MintTo { amount: unpack_amount(input)? }),
            8 => Ok(TokenInstruction::Burn { amount: unpack_amount(input)? }),
            9 => Ok(TokenInstruction::CloseAccount),
            10 => Ok(TokenInstruction::FreezeAccount),
            11 => Ok(TokenInstruction::ThawAccount),
            _ => Err(ProgramError::Custom(TokenError::InvalidInstruction)),
        }
    }

    /// The wire bytes of this instruction.
    pub fn pack(&self) -> (r: Vec<u8>)
        ensures
            r@ == instruction_bytes(self@),
    {
        let mut buf: Vec<u8> = Vec::new();
        match self {
            TokenInstruction::InitializeMint { decimals, mint_authority, freeze_authority } => {
                buf.push(0u8);
                buf.push(*decimals);
                mint_authority.write_to(&mut buf);
                pack_prefixed_key(freeze_authority, &mut buf);
            },
            TokenInstruction::InitializeAccount => {
                buf.push(1u8);
            },
            TokenInstruction::InitializeMultisig { m } => {
                buf.push(2u8);
                buf.push(*m);
            },
            TokenInstruction::Transfer { amount } => {
                buf.push(3u8);
                write_u64_le(&mut buf, *amount);
            },
            TokenInstruction::Approve { amount } => {
                buf.push(4u8);
                write_u64_le(&mut buf, *amount);
            },
            TokenInstruction::Revoke => {
                buf.push(5u8);
            },
            TokenInstruction::SetAuthority { authority_type, new_authority } => {
                buf.push(6u8);
                buf.push(authority_type.to_u8());
                pack_prefixed_key(new_authority, &mut buf);
            },
            TokenInstruction::MintTo { amount } => {
                buf.push(7u8);
                write_u64_le(&mut buf, *amount);
            },
            TokenInstruction::Burn { amount } => {
                buf.push(8u8);
                write_u64_le(&mut buf, *amount);
            },
            TokenInstruction::CloseAccount => {
                buf.push(9u8);
            },
            TokenInstruction::FreezeAccount => {
                buf.push(10u8);
            },
            TokenInstruction::ThawAccount => {
                buf.push(11u8);
            },
        }
        assert(buf@ =~= instruction_bytes(self@));
        buf
    }
}

} // verus!
