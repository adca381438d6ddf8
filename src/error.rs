use vstd::prelude::*;

verus! {

/// The engine's own error kinds. The order is part of the wire contract:
/// clients match on the numeric code that `code` returns.
#[derive(Clone, Copy, Debug, PartialEq, Eq, Structural)]
pub enum TokenError {
    InvalidAccountOwner,
    InvalidAccountDataLength,
    NotRentExempt,
    AlreadyInitialized,
    UninitializedAccount,
    InvalidAuthority,
    OwnerMismatch,
    MintAuthorityRequired,
    AccountFrozen,
    FreezeAuthorityRequired,
    InsufficientFunds,
    Overflow,
    MintMismatch,
    NonZeroBalance,
    InvalidInstruction,
    NoDelegate,
    InsufficientDelegatedAmount,
    NotEnoughSigners,
    InvalidMultisigConfig,
    InvalidMultisigSigner,
    CloseAuthorityMismatch,
    NativeAccountHasBalance,
    SelfTransfer,
}

/// Position of each kind in the declaration order above.
pub open spec fn token_error_code(e: TokenError) -> u32 {
    match e {
        TokenError::InvalidAccountOwner => 0,
        TokenError::InvalidAccountDataLength => 1,
        TokenError::NotRentExempt => 2,
        TokenError::AlreadyInitialized => 3,
        TokenError::UninitializedAccount => 4,
        TokenError::InvalidAuthority => 5,
        TokenError::OwnerMismatch => 6,
        TokenError::MintAuthorityRequired => 7,
        TokenError::AccountFrozen => 8,
        TokenError::FreezeAuthorityRequired => 9,
        TokenError::InsufficientFunds => 10,
        TokenError::Overflow => 11,
        TokenError::MintMismatch => 12,
        TokenError::NonZeroBalance => 13,
        TokenError::InvalidInstruction => 14,
        TokenError::NoDelegate => 15,
        TokenError::InsufficientDelegatedAmount => 16,
        TokenError::NotEnoughSigners => 17,
        TokenError::InvalidMultisigConfig => 18,
        TokenError::InvalidMultisigSigner => 19,
        TokenError::CloseAuthorityMismatch => 20,
        TokenError::NativeAccountHasBalance => 21,
        TokenError::SelfTransfer => 22,
    }
}

impl TokenError {
    /// The stable numeric code of this kind.
    pub fn code(self) -> (r: u32)
        ensures
            r == token_error_code(self),
    {
        match self {
            TokenError::InvalidAccountOwner => 0,
            TokenError::InvalidAccountDataLength => 1,
            TokenError::NotRentExempt => 2,
            TokenError::AlreadyInitialized => 3,
            TokenError::UninitializedAccount => 4,
            TokenError::InvalidAuthority => 5,
            TokenError::OwnerMismatch => 6,
            TokenError::MintAuthorityRequired => 7,
            TokenError::AccountFrozen => 8,
            TokenError::FreezeAuthorityRequired => 9,
            TokenError::InsufficientFunds => 10,
            TokenError::Overflow => 11,
            TokenError::MintMismatch => 12,
            TokenError::NonZeroBalance => 13,
            TokenError::InvalidInstruction => 14,
            TokenError::NoDelegate => 15,
            TokenError::InsufficientDelegatedAmount => 16,
            TokenError::NotEnoughSigners => 17,
            TokenError::InvalidMultisigConfig => 18,
            TokenError::InvalidMultisigSigner => 19,
            TokenError::CloseAuthorityMismatch => 20,
            TokenError::NativeAccountHasBalance => 21,
            TokenError::SelfTransfer => 22,
        }
    }
}

/// Every failure the engine reports: one of its own kinds, or one of the
/// host-level kinds that the host surfaces on its own.
#[derive(Clone, Copy, Debug, PartialEq, Eq, Structural)]
pub enum ProgramError {
    Custom(TokenError),
    /// An authority record that had to sign did not.
    MissingRequiredSignature,
    /// A record that had to be writable was not, or had the wrong size for its codec.
    InvalidAccountData,
    /// The rent oracle record could not be read as the rent sysvar.
    InvalidArgument,
    /// Fewer records were presented than the instruction needs.
    NotEnoughAccountKeys,
}

impl From<TokenError> for ProgramError {
    fn from(e: TokenError) -> (r: ProgramError)
        ensures
            r == ProgramError::Custom(e),
    {
        ProgramError::Custom(e)
    }
}

impl vstd::std_specs::convert::FromSpecImpl<TokenError> for ProgramError {
    open spec fn obeys_from_spec() -> bool {
        true
    }

    open spec fn from_spec(e: TokenError) -> ProgramError {
        ProgramError::Custom(e)
    }
}

} // verus!
