use spl_token_from_scratch::{AuthorityType, ProgramError, Pubkey, TokenError, TokenInstruction};

fn key(n: u8) -> Pubkey {
    Pubkey::new_from_array([n; 32])
}

fn all_instructions() -> Vec<TokenInstruction> {
    vec![
        TokenInstruction::InitializeMint { decimals: 9, mint_authority: key(1), freeze_authority: Some(key(2)) },
        TokenInstruction::InitializeMint { decimals: 0, mint_authority: key(3), freeze_authority: None },
        TokenInstruction::InitializeAccount,
        TokenInstruction::InitializeMultisig { m: 2 },
        TokenInstruction::Transfer { amount: u64::MAX },
        TokenInstruction::Approve { amount: 250 },
        TokenInstruction::Revoke,
        TokenInstruction::SetAuthority { authority_type: AuthorityType::MintTokens, new_authority: None },
        TokenInstruction::SetAuthority {
            authority_type: AuthorityType::CloseAccount,
            new_authority: Some(key(4)),
        },
        TokenInstruction::MintTo { amount: 1_000 },
        TokenInstruction::Burn { amount: 0 },
        TokenInstruction::CloseAccount,
        TokenInstruction::FreezeAccount,
        TokenInstruction::ThawAccount,
    ]
}

#[test]
fn every_instruction_survives_pack_then_unpack() {
    for ix in all_instructions() {
        assert_eq!(TokenInstruction::unpack(&ix.pack()).unwrap(), ix);
    }
}

#[test]
fn wire_bytes_are_exact() {
    assert_eq!(TokenInstruction::Transfer { amount: 400 }.pack(), vec![3, 144, 1, 0, 0, 0, 0, 0, 0]);
    assert_eq!(TokenInstruction::InitializeMultisig { m: 2 }.pack(), vec![2, 2]);
    assert_eq!(TokenInstruction::ThawAccount.pack(), vec![11]);
    let b = TokenInstruction::InitializeMint { decimals: 9, mint_authority: key(1), freeze_authority: None }
        .pack();
    assert_eq!(b.len(), 35);
    assert_eq!(b[0], 0);
    assert_eq!(b[1], 9);
    assert_eq!(b[34], 0);
    let s = TokenInstruction::SetAuthority {
        authority_type: AuthorityType::AccountOwner,
        new_authority: Some(key(7)),
    }
    .pack();
    assert_eq!(s.len(), 35);
    assert_eq!(&s[0..3], &[6, 2, 1]);
    assert_eq!(&s[3..35], &[7u8; 32][..]);
}

#[test]
fn malformed_instructions_are_invalid_instruction() {
    let invalid = Err(ProgramError::Custom(TokenError::InvalidInstruction));
    assert_eq!(TokenInstruction::unpack(&[]), invalid);
    assert_eq!(TokenInstruction::unpack(&[12]), invalid);
    assert_eq!(TokenInstruction::unpack(&[3, 1, 2, 3]), invalid);
    assert_eq!(TokenInstruction::unpack(&[2]), invalid);
    assert_eq!(TokenInstruction::unpack(&[6, 4, 0]), invalid);
    assert_eq!(TokenInstruction::unpack(&[6, 0, 2]), invalid);
    assert_eq!(TokenInstruction::unpack(&[6, 0, 1, 5]), invalid);
    let mut short_freeze = vec![0u8, 9];
    short_freeze.extend_from_slice(&[1u8; 32]);
    short_freeze.push(1);
    assert_eq!(TokenInstruction::unpack(&short_freeze), invalid);
    short_freeze[34] = 2;
    assert_eq!(TokenInstruction::unpack(&short_freeze), invalid);
}

#[test]
fn trailing_bytes_are_ignored() {
    assert_eq!(TokenInstruction::unpack(&[5, 9, 9]).unwrap(), TokenInstruction::Revoke);
    assert_eq!(
        TokenInstruction::unpack(&[7, 1, 0, 0, 0, 0, 0, 0, 0, 42]).unwrap(),
        TokenInstruction::MintTo { amount: 1 }
    );
}

#[test]
fn authority_type_bytes() {
    assert_eq!(AuthorityType::from_u8(0).unwrap(), AuthorityType::MintTokens);
    assert_eq!(AuthorityType::from_u8(1).unwrap(), AuthorityType::FreezeAccount);
    assert_eq!(AuthorityType::from_u8(2).unwrap(), AuthorityType::AccountOwner);
    assert_eq!(AuthorityType::from_u8(3).unwrap(), AuthorityType::CloseAccount);
    assert_eq!(
        AuthorityType::from_u8(4),
        Err(ProgramError::Custom(TokenError::InvalidInstruction))
    );
    assert_eq!(AuthorityType::CloseAccount.to_u8(), 3);
}

#[test]
fn error_codes_follow_declaration_order() {
    assert_eq!(TokenError::InvalidAccountOwner.code(), 0);
    assert_eq!(TokenError::NotEnoughSigners.code(), 17);
    assert_eq!(TokenError::SelfTransfer.code(), 22);
    assert_eq!(ProgramError::from(TokenError::Overflow), ProgramError::Custom(TokenError::Overflow));
}
