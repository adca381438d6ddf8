use spl_token_from_scratch::processor::initialize_mint;
use spl_token_from_scratch::utils::assertions::assert_rent_exempt;
use spl_token_from_scratch::state::multisig::MAX_SIGNERS;
use spl_token_from_scratch::{
    Account, AccountInfo, AccountState, AuthorityType, Mint, Multisig, ProgramError, Processor,
    Pubkey, TokenError, TokenInstruction,
};

fn key(n: u8) -> Pubkey {
    let mut bytes = [n; 32];
    bytes[0] = 0xC3;
    Pubkey::new_from_array(bytes)
}

fn program() -> Pubkey {
    key(200)
}

fn system() -> Pubkey {
    key(201)
}

fn rent_key() -> Pubkey {
    Pubkey::new_from_array(solana_program::sysvar::rent::id().to_bytes())
}

fn rent_data() -> Vec<u8> {
    let rent = solana_program::rent::Rent::default();
    let mut data = rent.lamports_per_byte_year.to_le_bytes().to_vec();
    data.extend_from_slice(&rent.exemption_threshold.to_le_bytes());
    data.push(rent.burn_percent);
    data
}

fn min_balance(len: usize) -> u64 {
    solana_program::rent::Rent::default().minimum_balance(len)
}

fn err(e: TokenError) -> Result<(), ProgramError> {
    Err(ProgramError::Custom(e))
}

/// A host: the records by key, handed to the engine as copies and written
/// back only when the instruction succeeds.
struct Host {
    records: Vec<AccountInfo>,
}

impl Host {
    fn new() -> Host {
        let rent = AccountInfo {
            key: rent_key(),
            owner: system(),
            is_signer: false,
            is_writable: false,
            lamports: 1,
            data: rent_data(),
        };
        Host { records: vec![rent] }
    }

    fn create(&mut self, k: Pubkey, len: usize) {
        self.records.push(AccountInfo {
            key: k,
            owner: program(),
            is_signer: false,
            is_writable: true,
            lamports: min_balance(len),
            data: vec![0u8; len],
        });
    }

    fn find(&self, k: &Pubkey) -> Option<&AccountInfo> {
        self.records.iter().find(|r| r.key == *k)
    }

    fn presented(&self, k: Pubkey, signer: bool, writable: bool) -> AccountInfo {
        match self.find(&k) {
            Some(r) => AccountInfo {
                key: r.key,
                owner: r.owner,
                is_signer: signer,
                is_writable: writable,
                lamports: r.lamports,
                data: r.data.clone(),
            },
            None => AccountInfo {
                key: k,
                owner: system(),
                is_signer: signer,
                is_writable: writable,
                lamports: 1_000_000,
                data: vec![],
            },
        }
    }

    /// Runs `ix` on the records named by `metas` (key, signed, writable).
    fn run(&mut self, ix: TokenInstruction, metas: &[(Pubkey, bool, bool)]) -> Result<(), ProgramError> {
        let mut accounts: Vec<AccountInfo> =
            metas.iter().map(|(k, s, w)| self.presented(*k, *s, *w)).collect();
        let r = Processor::process(&program(), &mut accounts, &ix.pack());
        if r.is_ok() {
            for a in accounts {
                if let Some(rec) = self.records.iter_mut().find(|x| x.key == a.key) {
                    rec.lamports = a.lamports;
                    rec.data = a.data;
                } else {
                    self.records.push(a);
                }
            }
        }
        r
    }

    fn mint(&self, k: Pubkey) -> Mint {
        Mint::unpack_from_slice(&self.find(&k).unwrap().data).unwrap()
    }

    fn account(&self, k: Pubkey) -> Account {
        Account::unpack_from_slice(&self.find(&k).unwrap().data).unwrap()
    }

    fn init_mint(&mut self, m: Pubkey, authority: Pubkey, freeze: Option<Pubkey>, decimals: u8) -> Result<(), ProgramError> {
        self.create(m, Mint::LEN);
        self.run(
            TokenInstruction::InitializeMint { decimals, mint_authority: authority, freeze_authority: freeze },
            &[(m, false, true), (rent_key(), false, false)],
        )
    }

    fn init_account(&mut self, a: Pubkey, m: Pubkey, owner: Pubkey) -> Result<(), ProgramError> {
        self.create(a, Account::LEN);
        self.run(
            TokenInstruction::InitializeAccount,
            &[(a, false, true), (m, false, false), (owner, false, false), (rent_key(), false, false)],
        )
    }

    fn mint_to(&mut self, m: Pubkey, dest: Pubkey, authority: Pubkey, amount: u64) -> Result<(), ProgramError> {
        self.run(
            TokenInstruction::MintTo { amount },
            &[(m, false, true), (dest, false, true), (authority, true, false)],
        )
    }

    fn transfer(&mut self, src: Pubkey, dst: Pubkey, authority: Pubkey, amount: u64) -> Result<(), ProgramError> {
        self.run(
            TokenInstruction::Transfer { amount },
            &[(src, false, true), (dst, false, true), (authority, true, false)],
        )
    }
}

// Keys of the scenarios.
const A: u8 = 1;
const B: u8 = 2;
const C: u8 = 3;
const D: u8 = 4;
const F: u8 = 6;
const M: u8 = 10;
const X: u8 = 11;
const Y: u8 = 12;
const Z: u8 = 13;

/// Mint M (authority A, optional freeze authority), accounts X (owner B)
/// and Y (owner C), 1_000 minted to X.
fn minted(freeze: Option<Pubkey>) -> Host {
    let mut h = Host::new();
    h.init_mint(key(M), key(A), freeze, 9).unwrap();
    h.init_account(key(X), key(M), key(B)).unwrap();
    h.init_account(key(Y), key(M), key(C)).unwrap();
    h.mint_to(key(M), key(X), key(A), 1_000).unwrap();
    h
}

#[test]
fn scenario_mint_and_transfer() {
    let mut h = minted(None);
    h.transfer(key(X), key(Y), key(B), 400).unwrap();
    assert_eq!(h.account(key(X)).amount, 600);
    assert_eq!(h.account(key(Y)).amount, 400);
    assert_eq!(h.mint(key(M)).supply, 1_000);
}

#[test]
fn scenario_delegate_exhaustion() {
    let mut h = minted(None);
    h.transfer(key(X), key(Y), key(B), 400).unwrap();
    h.run(
        TokenInstruction::Approve { amount: 250 },
        &[(key(X), false, true), (key(D), false, false), (key(B), true, false)],
    )
    .unwrap();
    h.transfer(key(X), key(Y), key(D), 250).unwrap();
    let x = h.account(key(X));
    assert_eq!(x.amount, 350);
    assert_eq!(h.account(key(Y)).amount, 650);
    assert_eq!(x.delegated_amount, 0);
    assert!(x.delegate.is_none());
}

#[test]
fn scenario_freeze_blocks_outflow() {
    let mut h = minted(Some(key(F)));
    let freeze_metas = [(key(X), false, true), (key(M), false, false), (key(F), true, false)];
    h.run(TokenInstruction::FreezeAccount, &freeze_metas).unwrap();
    assert_eq!(h.transfer(key(X), key(Y), key(B), 1), err(TokenError::AccountFrozen));
    h.run(TokenInstruction::ThawAccount, &freeze_metas).unwrap();
    h.transfer(key(X), key(Y), key(B), 1).unwrap();
    assert_eq!(h.account(key(Y)).amount, 1);
}

#[test]
fn scenario_multisig_mint() {
    let mut h = Host::new();
    let mu = key(50);
    let (s1, s2, s3, r) = (key(21), key(22), key(23), key(24));
    h.create(mu, Multisig::LEN);
    h.run(
        TokenInstruction::InitializeMultisig { m: 2 },
        &[(mu, false, true), (rent_key(), false, false), (s1, false, false), (s2, false, false), (s3, false, false)],
    )
    .unwrap();
    h.init_mint(key(M), mu, None, 0).unwrap();
    h.init_account(key(X), key(M), key(B)).unwrap();
    let mint_metas = |signed: &[(Pubkey, bool)]| {
        let mut v = vec![(key(M), false, true), (key(X), false, true), (mu, false, false)];
        for (k, s) in signed {
            v.push((*k, *s, false));
        }
        v
    };
    h.run(TokenInstruction::MintTo { amount: 100 }, &mint_metas(&[(s1, true), (s2, true)])).unwrap();
    assert_eq!(h.account(key(X)).amount, 100);
    assert_eq!(
        h.run(TokenInstruction::MintTo { amount: 100 }, &mint_metas(&[(s1, true)])),
        err(TokenError::NotEnoughSigners)
    );
    assert_eq!(
        h.run(TokenInstruction::MintTo { amount: 100 }, &mint_metas(&[(s1, true), (r, true)])),
        err(TokenError::NotEnoughSigners)
    );
    assert_eq!(h.mint(key(M)).supply, 100);
}

#[test]
fn scenario_close_rejects_non_empty() {
    let mut h = minted(None);
    h.transfer(key(X), key(Y), key(B), 400).unwrap();
    let close_metas = [(key(X), false, true), (key(Z), false, true), (key(B), true, false)];
    assert_eq!(h.run(TokenInstruction::CloseAccount, &close_metas), err(TokenError::NonZeroBalance));
    h.run(
        TokenInstruction::Burn { amount: 600 },
        &[(key(X), false, true), (key(M), false, true), (key(B), true, false)],
    )
    .unwrap();
    let x_lamports = h.find(&key(X)).unwrap().lamports;
    let z_before = h.presented(key(Z), false, true).lamports;
    h.run(TokenInstruction::CloseAccount, &close_metas).unwrap();
    assert_eq!(h.find(&key(Z)).unwrap().lamports, z_before + x_lamports);
    let x = h.find(&key(X)).unwrap();
    assert_eq!(x.lamports, 0);
    assert!(x.data.iter().all(|b| *b == 0));
    assert_eq!(h.mint(key(M)).supply, 400);
}

#[test]
fn scenario_fixed_supply_is_terminal() {
    let mut h = minted(None);
    h.run(
        TokenInstruction::SetAuthority { authority_type: AuthorityType::MintTokens, new_authority: None },
        &[(key(M), false, true), (key(A), true, false)],
    )
    .unwrap();
    assert!(h.mint(key(M)).mint_authority.is_none());
    assert_eq!(h.mint_to(key(M), key(X), key(A), 1), err(TokenError::MintAuthorityRequired));
}

#[test]
fn test_transfer_zero_amount() {
    let mut h = Host::new();
    h.init_mint(key(M), key(A), None, 9).unwrap();
    h.init_account(key(X), key(M), key(B)).unwrap();
    h.init_account(key(Y), key(M), key(C)).unwrap();
    h.transfer(key(X), key(Y), key(B), 0).unwrap();
    assert_eq!(h.account(key(X)).amount, 0);
    assert_eq!(h.account(key(Y)).amount, 0);
}

#[test]
fn transfer_zero_keeps_funded_balances() {
    let mut h = minted(None);
    h.transfer(key(X), key(Y), key(B), 0).unwrap();
    assert_eq!(h.account(key(X)).amount, 1_000);
    assert_eq!(h.account(key(Y)).amount, 0);
}

#[test]
fn mint_to_past_the_largest_supply_is_overflow() {
    let mut h = minted(None);
    assert_eq!(h.mint_to(key(M), key(Y), key(A), u64::MAX - 1_000), Ok(()));
    assert_eq!(h.mint(key(M)).supply, u64::MAX);
    assert_eq!(h.mint_to(key(M), key(Y), key(A), 1), err(TokenError::Overflow));
    assert_eq!(h.mint(key(M)).supply, u64::MAX);
}

fn init_multisig_with(n: usize, m: u8) -> Result<(), ProgramError> {
    let mut h = Host::new();
    let mu = key(50);
    h.create(mu, Multisig::LEN);
    let mut metas = vec![(mu, false, true), (rent_key(), false, false)];
    for i in 0..n {
        metas.push((key(100 + i as u8), false, false));
    }
    h.run(TokenInstruction::InitializeMultisig { m }, &metas)
}

#[test]
fn multisig_configuration_bounds() {
    assert_eq!(init_multisig_with(3, 0), err(TokenError::InvalidMultisigConfig));
    assert_eq!(init_multisig_with(3, 4), err(TokenError::InvalidMultisigConfig));
    assert_eq!(init_multisig_with(0, 1), err(TokenError::InvalidMultisigConfig));
    assert_eq!(init_multisig_with(12, 1), err(TokenError::InvalidMultisigConfig));
    assert_eq!(init_multisig_with(11, 11), Ok(()));
    assert_eq!(init_multisig_with(1, 1), Ok(()));
}

#[test]
fn close_into_itself_is_invalid_authority() {
    let mut h = minted(None);
    assert_eq!(
        h.run(
            TokenInstruction::CloseAccount,
            &[(key(Y), false, true), (key(Y), false, true), (key(C), true, false)],
        ),
        err(TokenError::InvalidAuthority)
    );
}

#[test]
fn test_initialize_mint() {
    let mut h = Host::new();
    h.init_mint(key(M), key(A), Some(key(F)), 9).unwrap();
    let mint = h.mint(key(M));
    assert!(mint.is_initialized);
    assert_eq!(mint.decimals, 9);
    assert_eq!(mint.supply, 0);
    assert_eq!(mint.mint_authority.unwrap(), key(A));
    assert_eq!(mint.freeze_authority.unwrap(), key(F));
}

#[test]
fn test_initialize_mint_without_freeze_authority() {
    let mut h = Host::new();
    h.init_mint(key(M), key(A), None, 6).unwrap();
    let mint = h.mint(key(M));
    assert!(mint.is_initialized);
    assert!(mint.freeze_authority.is_none());
}

#[test]
fn test_initialize_mint_already_initialized_fails() {
    let mut h = Host::new();
    h.init_mint(key(M), key(A), None, 9).unwrap();
    let result = h.run(
        TokenInstruction::InitializeMint { decimals: 6, mint_authority: key(A), freeze_authority: None },
        &[(key(M), false, true), (rent_key(), false, false)],
    );
    assert_eq!(result, err(TokenError::AlreadyInitialized));
}

#[test]
fn initialize_needs_rent_exemption_and_the_rent_record() {
    let mut h = Host::new();
    h.create(key(M), Mint::LEN);
    let ix = TokenInstruction::InitializeMint { decimals: 0, mint_authority: key(A), freeze_authority: None };
    assert_eq!(
        h.run(ix.clone(), &[(key(M), false, true), (key(Z), false, false)]),
        Err(ProgramError::InvalidArgument)
    );
    h.records.iter_mut().find(|r| r.key == key(M)).unwrap().lamports = min_balance(Mint::LEN) - 1;
    assert_eq!(
        h.run(ix.clone(), &[(key(M), false, true), (rent_key(), false, false)]),
        err(TokenError::NotRentExempt)
    );
    assert_eq!(h.run(ix, &[(key(M), false, true)]), Err(ProgramError::NotEnoughAccountKeys));
}

#[test]
fn initialize_given_the_rent_answer() {
    let mut accounts = vec![
        AccountInfo { key: key(M), owner: program(), is_signer: false, is_writable: true, lamports: 0, data: vec![0; 82] },
        AccountInfo { key: key(Z), owner: system(), is_signer: false, is_writable: false, lamports: 0, data: vec![] },
    ];
    assert_eq!(
        initialize_mint::process_with_rent(&program(), &mut accounts, 2, key(A), None, Some(false)),
        err(TokenError::NotRentExempt)
    );
    assert_eq!(
        initialize_mint::process_with_rent(&program(), &mut accounts, 2, key(A), None, None),
        Err(ProgramError::InvalidArgument)
    );
    assert_eq!(initialize_mint::process_with_rent(&program(), &mut accounts, 2, key(A), None, Some(true)), Ok(()));
    assert_eq!(Mint::unpack(&accounts[0].data).unwrap().decimals, 2);
}

#[test]
fn test_initialize_account() {
    let mut h = Host::new();
    h.init_mint(key(M), key(A), None, 9).unwrap();
    h.init_account(key(X), key(M), key(B)).unwrap();
    let account = h.account(key(X));
    assert!(account.is_initialized());
    assert_eq!(account.mint, key(M));
    assert_eq!(account.owner, key(B));
    assert_eq!(account.amount, 0);
    assert!(account.delegate.is_none());
    assert!(!account.is_frozen());
    assert!(!account.is_native());
    assert_eq!(account.delegated_amount, 0);
    assert!(account.close_authority.is_none());
}

#[test]
fn initialize_account_needs_an_initialized_mint() {
    let mut h = Host::new();
    h.create(key(M), Mint::LEN);
    assert_eq!(h.init_account(key(X), key(M), key(B)), err(TokenError::UninitializedAccount));
}

#[test]
fn test_initialize_multisig() {
    let mut h = Host::new();
    let mu = key(50);
    h.create(mu, Multisig::LEN);
    h.run(
        TokenInstruction::InitializeMultisig { m: 2 },
        &[(mu, false, true), (rent_key(), false, false), (key(21), false, false), (key(22), false, false), (key(23), false, false)],
    )
    .unwrap();
    let ms = Multisig::unpack_from_slice(&h.find(&mu).unwrap().data).unwrap();
    assert!(ms.is_initialized);
    assert_eq!(ms.m, 2);
    assert_eq!(ms.n, 3);
    assert_eq!(ms.signers[0], key(21));
    assert_eq!(ms.signers[1], key(22));
    assert_eq!(ms.signers[2], key(23));
    assert_eq!(ms.signers[MAX_SIGNERS - 1], Pubkey::default());
}

#[test]
fn test_initialize_multisig_invalid_m_fails() {
    assert!(init_multisig_with(2, 3).is_err());
}

#[test]
fn test_mint_to() {
    let mut h = Host::new();
    h.init_mint(key(M), key(A), None, 9).unwrap();
    h.init_account(key(X), key(M), key(B)).unwrap();
    let amount = 1_000_000_000u64;
    h.mint_to(key(M), key(X), key(A), amount).unwrap();
    assert_eq!(h.account(key(X)).amount, amount);
    assert_eq!(h.mint(key(M)).supply, amount);
}

#[test]
fn test_mint_to_wrong_authority_fails() {
    let mut h = minted(None);
    assert_eq!(h.mint_to(key(M), key(X), key(B), 1000), err(TokenError::InvalidAuthority));
}

#[test]
fn test_mint_to_wrong_mint_fails() {
    let mut h = minted(None);
    h.init_mint(key(20), key(A), None, 9).unwrap();
    assert_eq!(h.mint_to(key(20), key(X), key(A), 1000), err(TokenError::MintMismatch));
}

#[test]
fn test_transfer() {
    let mut h = minted(None);
    h.transfer(key(X), key(Y), key(B), 400).unwrap();
    assert_eq!(h.account(key(X)).amount, 1000 - 400);
    assert_eq!(h.account(key(Y)).amount, 400);
}

#[test]
fn test_transfer_insufficient_funds_fails() {
    let mut h = Host::new();
    h.init_mint(key(M), key(A), None, 9).unwrap();
    h.init_account(key(X), key(M), key(B)).unwrap();
    h.init_account(key(Y), key(M), key(C)).unwrap();
    h.mint_to(key(M), key(X), key(A), 100).unwrap();
    assert_eq!(h.transfer(key(X), key(Y), key(B), 200), err(TokenError::InsufficientFunds));
}

#[test]
fn test_transfer_wrong_owner_fails() {
    let mut h = minted(None);
    assert_eq!(h.transfer(key(X), key(Y), key(C), 100), err(TokenError::InvalidAuthority));
}

#[test]
fn transfer_refusals() {
    let mut h = minted(None);
    assert_eq!(h.transfer(key(X), key(X), key(B), 1), err(TokenError::SelfTransfer));
    h.init_mint(key(20), key(A), None, 9).unwrap();
    h.init_account(key(21), key(20), key(B)).unwrap();
    assert_eq!(h.transfer(key(X), key(21), key(B), 1), err(TokenError::MintMismatch));
    assert_eq!(
        h.run(
            TokenInstruction::Transfer { amount: 1 },
            &[(key(X), false, true), (key(Y), false, true), (key(B), false, false)],
        ),
        err(TokenError::InvalidAuthority)
    );
    assert_eq!(
        h.run(
            TokenInstruction::MintTo { amount: 1 },
            &[(key(M), false, true), (key(Y), false, true), (key(A), false, false)],
        ),
        Err(ProgramError::MissingRequiredSignature)
    );
    assert_eq!(
        h.run(
            TokenInstruction::Transfer { amount: 1 },
            &[(key(X), false, false), (key(Y), false, true), (key(B), true, false)],
        ),
        Err(ProgramError::InvalidAccountData)
    );
    assert_eq!(h.transfer(key(X), key(Z), key(B), 1), err(TokenError::InvalidAccountOwner));
    assert_eq!(h.transfer(key(X), key(M), key(B), 1), err(TokenError::InvalidAccountDataLength));
    assert_eq!(
        h.run(TokenInstruction::Transfer { amount: 1 }, &[(key(X), false, true), (key(Y), false, true)]),
        Err(ProgramError::NotEnoughAccountKeys)
    );
    h.create(key(30), Account::LEN);
    assert_eq!(h.transfer(key(X), key(30), key(B), 1), err(TokenError::UninitializedAccount));
    assert_eq!(h.account(key(X)).amount, 1_000);
}

#[test]
fn test_burn() {
    let mut h = minted(None);
    h.run(
        TokenInstruction::Burn { amount: 300 },
        &[(key(X), false, true), (key(M), false, true), (key(B), true, false)],
    )
    .unwrap();
    assert_eq!(h.account(key(X)).amount, 1000 - 300);
    assert_eq!(h.mint(key(M)).supply, 1000 - 300);
}

#[test]
fn test_approve() {
    let mut h = minted(None);
    h.run(
        TokenInstruction::Approve { amount: 500 },
        &[(key(X), false, true), (key(D), false, false), (key(B), true, false)],
    )
    .unwrap();
    let x = h.account(key(X));
    assert_eq!(x.delegate.as_ref().unwrap(), &key(D));
    assert_eq!(x.delegated_amount, 500);
}

#[test]
fn approve_on_frozen_account_is_refused() {
    let mut h = minted(Some(key(F)));
    h.run(TokenInstruction::FreezeAccount, &[(key(X), false, true), (key(M), false, false), (key(F), true, false)])
        .unwrap();
    assert_eq!(
        h.run(
            TokenInstruction::Approve { amount: 5 },
            &[(key(X), false, true), (key(D), false, false), (key(B), true, false)],
        ),
        err(TokenError::AccountFrozen)
    );
    assert_eq!(
        h.run(TokenInstruction::Revoke, &[(key(X), false, true), (key(B), true, false)]),
        err(TokenError::AccountFrozen)
    );
}

#[test]
fn test_transfer_with_delegate() {
    let mut h = minted(None);
    h.run(
        TokenInstruction::Approve { amount: 500 },
        &[(key(X), false, true), (key(D), false, false), (key(B), true, false)],
    )
    .unwrap();
    h.transfer(key(X), key(Y), key(D), 200).unwrap();
    let x = h.account(key(X));
    assert_eq!(x.amount, 800);
    assert_eq!(x.delegated_amount, 300);
    assert_eq!(h.account(key(Y)).amount, 200);
}

#[test]
fn test_delegate_exceeds_allowance_fails() {
    let mut h = minted(None);
    h.run(
        TokenInstruction::Approve { amount: 100 },
        &[(key(X), false, true), (key(D), false, false), (key(B), true, false)],
    )
    .unwrap();
    assert_eq!(h.transfer(key(X), key(Y), key(D), 200), err(TokenError::InsufficientDelegatedAmount));
}

#[test]
fn test_revoke() {
    let mut h = minted(None);
    h.run(
        TokenInstruction::Approve { amount: 500 },
        &[(key(X), false, true), (key(D), false, false), (key(B), true, false)],
    )
    .unwrap();
    assert!(h.account(key(X)).delegate.is_some());
    h.run(TokenInstruction::Revoke, &[(key(X), false, true), (key(B), true, false)]).unwrap();
    let x = h.account(key(X));
    assert!(x.delegate.is_none());
    assert_eq!(x.delegated_amount, 0);
    assert_eq!(h.transfer(key(X), key(Y), key(D), 1), err(TokenError::InvalidAuthority));
}

#[test]
fn test_set_authority_mint_tokens() {
    let mut h = minted(None);
    h.run(
        TokenInstruction::SetAuthority { authority_type: AuthorityType::MintTokens, new_authority: Some(key(C)) },
        &[(key(M), false, true), (key(A), true, false)],
    )
    .unwrap();
    assert_eq!(h.mint(key(M)).mint_authority.unwrap(), key(C));
    assert_eq!(h.mint_to(key(M), key(X), key(A), 1), err(TokenError::InvalidAuthority));
}

#[test]
fn test_set_authority_remove_mint_authority() {
    let mut h = minted(None);
    h.run(
        TokenInstruction::SetAuthority { authority_type: AuthorityType::MintTokens, new_authority: None },
        &[(key(M), false, true), (key(A), true, false)],
    )
    .unwrap();
    assert!(h.mint(key(M)).mint_authority.is_none());
}

#[test]
fn set_authority_on_token_accounts() {
    let mut h = minted(Some(key(F)));
    h.run(
        TokenInstruction::Approve { amount: 5 },
        &[(key(X), false, true), (key(D), false, false), (key(B), true, false)],
    )
    .unwrap();
    let owner_ix =
        |k: Option<Pubkey>| TokenInstruction::SetAuthority { authority_type: AuthorityType::AccountOwner, new_authority: k };
    assert_eq!(
        h.run(owner_ix(None), &[(key(X), false, true), (key(B), true, false)]),
        err(TokenError::InvalidAuthority)
    );
    h.run(owner_ix(Some(key(C))), &[(key(X), false, true), (key(B), true, false)]).unwrap();
    let x = h.account(key(X));
    assert_eq!(x.owner, key(C));
    assert!(x.delegate.is_none());
    assert_eq!(x.delegated_amount, 0);
    h.run(
        TokenInstruction::SetAuthority { authority_type: AuthorityType::CloseAccount, new_authority: Some(key(Z)) },
        &[(key(X), false, true), (key(C), true, false)],
    )
    .unwrap();
    assert_eq!(h.account(key(X)).close_authority.unwrap(), key(Z));
    h.run(
        TokenInstruction::SetAuthority { authority_type: AuthorityType::FreezeAccount, new_authority: None },
        &[(key(M), false, true), (key(F), true, false)],
    )
    .unwrap();
    assert_eq!(
        h.run(TokenInstruction::FreezeAccount, &[(key(X), false, true), (key(M), false, false), (key(F), true, false)]),
        err(TokenError::FreezeAuthorityRequired)
    );
}

#[test]
fn test_close_account() {
    let mut h = Host::new();
    h.init_mint(key(M), key(A), None, 9).unwrap();
    h.init_account(key(X), key(M), key(B)).unwrap();
    let x_lamports = h.find(&key(X)).unwrap().lamports;
    h.run(TokenInstruction::CloseAccount, &[(key(X), false, true), (key(Z), false, true), (key(B), true, false)])
        .unwrap();
    assert_eq!(h.find(&key(X)).unwrap().lamports, 0);
    assert_eq!(h.find(&key(Z)).unwrap().lamports, 1_000_000 + x_lamports);
}

#[test]
fn test_close_account_with_balance_fails() {
    let mut h = Host::new();
    h.init_mint(key(M), key(A), None, 9).unwrap();
    h.init_account(key(X), key(M), key(B)).unwrap();
    h.mint_to(key(M), key(X), key(A), 100).unwrap();
    assert!(h
        .run(TokenInstruction::CloseAccount, &[(key(X), false, true), (key(Z), false, true), (key(B), true, false)])
        .is_err());
}

#[test]
fn test_freeze_and_thaw_account() {
    let mut h = minted(Some(key(F)));
    let metas = [(key(X), false, true), (key(M), false, false), (key(F), true, false)];
    h.run(TokenInstruction::FreezeAccount, &metas).unwrap();
    let x = h.account(key(X));
    assert!(x.is_frozen());
    assert_eq!(x.state, AccountState::Frozen);
    h.run(TokenInstruction::FreezeAccount, &metas).unwrap();
    h.run(TokenInstruction::ThawAccount, &metas).unwrap();
    let x = h.account(key(X));
    assert!(!x.is_frozen());
    assert_eq!(x.state, AccountState::Initialized);
}

#[test]
fn test_transfer_from_frozen_account_fails() {
    let mut h = minted(Some(key(F)));
    h.run(TokenInstruction::FreezeAccount, &[(key(X), false, true), (key(M), false, false), (key(F), true, false)])
        .unwrap();
    assert!(h.transfer(key(X), key(Y), key(B), 100).is_err());
    assert_eq!(h.transfer(key(Y), key(X), key(C), 0), err(TokenError::AccountFrozen));
    assert_eq!(h.mint_to(key(M), key(X), key(A), 1), err(TokenError::AccountFrozen));
}

#[test]
fn freeze_without_freeze_authority_is_refused() {
    let mut h = minted(None);
    assert_eq!(
        h.run(TokenInstruction::FreezeAccount, &[(key(X), false, true), (key(M), false, false), (key(A), true, false)]),
        err(TokenError::FreezeAuthorityRequired)
    );
}

fn multisig_minted(signed: &[(u8, bool)]) -> Result<(), ProgramError> {
    let mut h = Host::new();
    let mu = key(50);
    h.create(mu, Multisig::LEN);
    h.run(
        TokenInstruction::InitializeMultisig { m: 2 },
        &[(mu, false, true), (rent_key(), false, false), (key(21), false, false), (key(22), false, false), (key(23), false, false)],
    )
    .unwrap();
    h.init_mint(key(M), mu, None, 9).unwrap();
    h.init_account(key(X), key(M), key(B)).unwrap();
    let mut metas = vec![(key(M), false, true), (key(X), false, true), (mu, false, false)];
    for (k, s) in signed {
        metas.push((key(*k), *s, false));
    }
    let r = h.run(TokenInstruction::MintTo { amount: 1000 }, &metas);
    if r.is_ok() {
        assert_eq!(h.account(key(X)).amount, 1000);
    }
    r
}

#[test]
fn test_mint_with_multisig_authority() {
    assert_eq!(multisig_minted(&[(21, true), (23, true)]), Ok(()));
}

#[test]
fn test_mint_with_multisig_insufficient_signers_fails() {
    assert!(multisig_minted(&[(21, true), (22, false)]).is_err());
}

#[test]
fn test_multiple_mints_and_transfers() {
    let mut h = minted(None);
    h.mint_to(key(M), key(X), key(A), 500).unwrap();
    h.transfer(key(X), key(Y), key(B), 300).unwrap();
    h.transfer(key(Y), key(X), key(C), 100).unwrap();
    assert_eq!(h.account(key(X)).amount, 1300);
    assert_eq!(h.account(key(Y)).amount, 200);
    assert_eq!(h.mint(key(M)).supply, 1500);
}

#[test]
fn unknown_instruction_is_invalid() {
    let mut h = Host::new();
    let mut accounts: Vec<AccountInfo> = Vec::new();
    assert_eq!(Processor::process(&program(), &mut accounts, &[42]), err(TokenError::InvalidInstruction));
    assert_eq!(h.run(TokenInstruction::Revoke, &[]), Err(ProgramError::NotEnoughAccountKeys));
}

#[test]
fn close_into_a_full_destination_is_overflow() {
    let mut h = Host::new();
    h.init_mint(key(M), key(A), None, 9).unwrap();
    h.init_account(key(X), key(M), key(B)).unwrap();
    h.records.push(AccountInfo {
        key: key(Z),
        owner: system(),
        is_signer: false,
        is_writable: true,
        lamports: u64::MAX,
        data: vec![],
    });
    assert_eq!(
        h.run(TokenInstruction::CloseAccount, &[(key(X), false, true), (key(Z), false, true), (key(B), true, false)]),
        err(TokenError::Overflow)
    );
    assert!(h.account(key(X)).is_initialized());
}

#[test]
fn approve_zero_leaves_no_delegate() {
    let mut h = minted(None);
    h.run(
        TokenInstruction::Approve { amount: 0 },
        &[(key(X), false, true), (key(D), false, false), (key(B), true, false)],
    )
    .unwrap();
    let x = h.account(key(X));
    assert!(x.delegate.is_none());
    assert_eq!(x.delegated_amount, 0);
}

#[test]
fn oracle_declaring_an_unusable_rate_is_invalid_argument() {
    let mut h = Host::new();
    let rent = h.records.iter_mut().find(|r| r.key == rent_key()).unwrap();
    rent.data[0..8].copy_from_slice(&u64::MAX.to_le_bytes());
    assert_eq!(h.init_mint(key(M), key(A), None, 9), Err(ProgramError::InvalidArgument));
    assert!(!h.mint(key(M)).is_initialized);
}

#[test]
fn rent_assertion_asks_the_oracle_record() {
    let h = Host::new();
    let oracle = h.presented(rent_key(), false, false);
    let mut rec = AccountInfo {
        key: key(M),
        owner: program(),
        is_signer: false,
        is_writable: true,
        lamports: min_balance(Mint::LEN),
        data: vec![0; Mint::LEN],
    };
    assert_eq!(assert_rent_exempt(&oracle, &rec), Ok(()));
    rec.lamports -= 1;
    assert_eq!(assert_rent_exempt(&oracle, &rec), err(TokenError::NotRentExempt));
    let stranger = h.presented(key(Z), false, false);
    assert_eq!(assert_rent_exempt(&stranger, &rec), Err(ProgramError::InvalidArgument));
}
