use spl_token_from_scratch::state::multisig::{Multisig, MAX_SIGNERS};
use spl_token_from_scratch::utils::assertions::{
    assert_data_length, assert_owned_by, assert_signer, assert_writable, checked_add, checked_sub,
};
use spl_token_from_scratch::utils::authority::{
    validate_authority, validate_multisig, validate_owner_or_delegate, validate_single_signer,
};
use spl_token_from_scratch::{AccountInfo, ProgramError, Pubkey, TokenError};

fn key(n: u8) -> Pubkey {
    let mut bytes = [0u8; 32];
    bytes[0] = n;
    bytes[31] = 0x5A;
    Pubkey::new_from_array(bytes)
}

fn create_test_account_info(
    key: &Pubkey,
    is_signer: bool,
    is_writable: bool,
    lamports: u64,
    data: Vec<u8>,
    owner: &Pubkey,
) -> AccountInfo {
    AccountInfo { key: *key, owner: *owner, is_signer, is_writable, lamports, data }
}

#[test]
fn test_checked_add_success() {
    assert_eq!(checked_add(100, 200).unwrap(), 300);
    assert_eq!(checked_add(0, 0).unwrap(), 0);
    assert_eq!(checked_add(u64::MAX - 1, 1).unwrap(), u64::MAX);
}

#[test]
fn test_checked_add_overflow() {
    assert!(checked_add(u64::MAX, 1).is_err());
    assert!(checked_add(u64::MAX, u64::MAX).is_err());
}

#[test]
fn test_checked_sub_success() {
    assert_eq!(checked_sub(300, 200).unwrap(), 100);
    assert_eq!(checked_sub(100, 100).unwrap(), 0);
    assert_eq!(checked_sub(u64::MAX, u64::MAX).unwrap(), 0);
}

#[test]
fn test_checked_sub_underflow() {
    assert!(checked_sub(0, 1).is_err());
    assert!(checked_sub(100, 101).is_err());
}

#[test]
fn checked_errors_are_overflow_and_insufficient_funds() {
    assert_eq!(checked_add(u64::MAX, 1), Err(ProgramError::Custom(TokenError::Overflow)));
    assert_eq!(checked_sub(1, 2), Err(ProgramError::Custom(TokenError::InsufficientFunds)));
}

#[test]
fn record_assertions() {
    let program = key(100);
    let rec = create_test_account_info(&key(1), false, false, 0, vec![0; 3], &program);
    assert_eq!(assert_owned_by(&rec, &program), Ok(()));
    assert_eq!(
        assert_owned_by(&rec, &key(2)),
        Err(ProgramError::Custom(TokenError::InvalidAccountOwner))
    );
    assert_eq!(assert_signer(&rec), Err(ProgramError::MissingRequiredSignature));
    assert_eq!(assert_writable(&rec), Err(ProgramError::InvalidAccountData));
    assert_eq!(assert_data_length(&rec, 3), Ok(()));
    assert_eq!(
        assert_data_length(&rec, 4),
        Err(ProgramError::Custom(TokenError::InvalidAccountDataLength))
    );
}

#[test]
fn test_single_signer_valid() {
    let key = key(1);
    let owner = self::key(2);

    let account = create_test_account_info(&key, true, false, 0, vec![], &owner);

    let result = validate_single_signer(&key, &account);
    assert!(result.is_ok());
}

#[test]
fn test_single_signer_wrong_key() {
    let expected_key = key(1);
    let wrong_key = key(2);
    let owner = key(3);

    let account = create_test_account_info(&wrong_key, true, false, 0, vec![], &owner);

    let result = validate_single_signer(&expected_key, &account);
    assert!(result.is_err());
}

#[test]
fn test_single_signer_not_signer() {
    let key = key(1);
    let owner = self::key(2);

    let account = create_test_account_info(&key, false, false, 0, vec![], &owner);

    let result = validate_single_signer(&key, &account);
    assert!(result.is_err());
}

#[test]
fn single_signer_error_kinds() {
    let account = create_test_account_info(&key(1), false, false, 0, vec![], &key(9));
    assert_eq!(
        validate_single_signer(&key(2), &account),
        Err(ProgramError::Custom(TokenError::InvalidAuthority))
    );
    assert_eq!(validate_single_signer(&key(1), &account), Err(ProgramError::MissingRequiredSignature));
}

#[test]
fn test_owner_or_delegate_owner_valid() {
    let program_id = key(100);
    let owner_key = key(1);
    let random_owner = key(2);

    let authority = create_test_account_info(&owner_key, true, false, 0, vec![], &random_owner);

    let result = validate_owner_or_delegate(&program_id, &owner_key, None, &authority, &[]);

    assert!(result.is_ok());
    assert_eq!(result.unwrap(), false);
}

#[test]
fn test_owner_or_delegate_delegate_valid() {
    let program_id = key(100);
    let owner_key = key(1);
    let delegate_key = key(2);
    let random_owner = key(3);

    let authority = create_test_account_info(&delegate_key, true, false, 0, vec![], &random_owner);

    let result =
        validate_owner_or_delegate(&program_id, &owner_key, Some(&delegate_key), &authority, &[]);

    assert!(result.is_ok());
    assert_eq!(result.unwrap(), true);
}

#[test]
fn test_owner_or_delegate_neither() {
    let program_id = key(100);
    let owner_key = key(1);
    let delegate_key = key(2);
    let random_key = key(3);
    let random_owner = key(4);

    let authority = create_test_account_info(&random_key, true, false, 0, vec![], &random_owner);

    let result =
        validate_owner_or_delegate(&program_id, &owner_key, Some(&delegate_key), &authority, &[]);

    assert!(result.is_err());
}

fn multisig_record(program: &Pubkey, ms_key: &Pubkey, m: u8, enrolled: &[Pubkey]) -> AccountInfo {
    let mut signers = [Pubkey::default(); MAX_SIGNERS];
    for (i, k) in enrolled.iter().enumerate() {
        signers[i] = *k;
    }
    let ms = Multisig { m, n: enrolled.len() as u8, is_initialized: true, signers };
    create_test_account_info(ms_key, false, false, 0, ms.pack(), program)
}

#[test]
fn multisig_authority_counts_enrolled_signatures() {
    let program = key(100);
    let ms_key = key(50);
    let (s1, s2, s3, r) = (key(1), key(2), key(3), key(4));
    let ms = multisig_record(&program, &ms_key, 2, &[s1, s2, s3]);
    let signed = |k: &Pubkey, sig: bool| create_test_account_info(k, sig, false, 0, vec![], &key(7));

    let two = vec![signed(&s1, true), signed(&s2, true)];
    assert_eq!(validate_authority(&program, &ms_key, &ms, &two), Ok(()));

    let one = vec![signed(&s1, true), signed(&s2, false)];
    assert_eq!(
        validate_authority(&program, &ms_key, &ms, &one),
        Err(ProgramError::Custom(TokenError::NotEnoughSigners))
    );

    let stranger = vec![signed(&s1, true), signed(&r, true)];
    assert_eq!(
        validate_multisig(&program, &ms_key, &ms, &stranger),
        Err(ProgramError::Custom(TokenError::NotEnoughSigners))
    );

    // The same enrolled signer presented twice counts twice.
    let twice = vec![signed(&s1, true), signed(&s1, true)];
    assert_eq!(validate_authority(&program, &ms_key, &ms, &twice), Ok(()));

    assert_eq!(
        validate_authority(&program, &key(51), &ms, &two),
        Err(ProgramError::Custom(TokenError::InvalidAuthority))
    );
}

#[test]
fn multisig_authority_needs_initialized_record() {
    let program = key(100);
    let ms_key = key(50);
    let rec = create_test_account_info(&ms_key, false, false, 0, vec![0u8; 355], &program);
    assert_eq!(
        validate_authority(&program, &ms_key, &rec, &[]),
        Err(ProgramError::Custom(TokenError::UninitializedAccount))
    );
}

#[test]
fn multisig_shaped_record_of_another_program_is_a_single_signer() {
    let program = key(100);
    let ms_key = key(50);
    let rec = multisig_record(&key(101), &ms_key, 1, &[key(1)]);
    assert_eq!(
        validate_authority(&program, &ms_key, &rec, &[]),
        Err(ProgramError::MissingRequiredSignature)
    );
}

#[test]
fn multisig_count_past_a_byte_is_overflow() {
    let program = key(100);
    let ms_key = key(50);
    let s1 = key(1);
    let ms = multisig_record(&program, &ms_key, 1, &[s1]);
    let many: Vec<AccountInfo> =
        (0..256).map(|_| create_test_account_info(&s1, true, false, 0, vec![], &key(7))).collect();
    assert_eq!(
        validate_authority(&program, &ms_key, &ms, &many),
        Err(ProgramError::Custom(TokenError::Overflow))
    );
    assert_eq!(validate_authority(&program, &ms_key, &ms, &many[..255]), Ok(()));
}
