use vstd::prelude::*;

verus! {

/// Failures specific to the whitelist registry.
#[derive(Clone, Copy, Debug, PartialEq, Eq, Structural)]
pub enum TokenWhitelistError {
    /// Invalid instruction
    InvalidInstruction,
    /// Not rent exempt
    NotRentExempt,
    /// Token whitelist not initialized
    TokenWhitelistNotInit,
    /// Signer is not the token whitelist owner
    TokenWhitelistNotOwner,
    /// Token whitelist size exceeds its bound
    TokenWhitelistSizeExceeds,
    /// Signer is not the account owner
    NotOwner,
    /// Invalid authority provided
    InvalidAuthority,
    /// Calculation overflow
    Overflow,
}

impl TokenWhitelistError {
    /// The numeric code under which the host reports this error.
    pub open spec fn spec_code(self) -> u32 {
        match self {
            TokenWhitelistError::InvalidInstruction => 0,
            TokenWhitelistError::NotRentExempt => 1,
            TokenWhitelistError::TokenWhitelistNotInit => 2,
            TokenWhitelistError::TokenWhitelistNotOwner => 3,
            TokenWhitelistError::TokenWhitelistSizeExceeds => 4,
            TokenWhitelistError::NotOwner => 5,
            TokenWhitelistError::InvalidAuthority => 6,
            TokenWhitelistError::Overflow => 7,
        }
    }

    pub fn code(&self) -> (r: u32)
        ensures
            r == self.spec_code(),
    {
        match self {
            TokenWhitelistError::InvalidInstruction => 0,
            TokenWhitelistError::NotRentExempt => 1,
            TokenWhitelistError::TokenWhitelistNotInit => 2,
            TokenWhitelistError::TokenWhitelistNotOwner => 3,
            TokenWhitelistError::TokenWhitelistSizeExceeds => 4,
            TokenWhitelistError::NotOwner => 5,
            TokenWhitelistError::InvalidAuthority => 6,
            TokenWhitelistError::Overflow => 7,
        }
    }
}

/// Every way an invocation of the registry can fail: the registry's own
/// errors, and the host-level failures that the registry reports.
#[derive(Clone, Copy, Debug, PartialEq, Eq, Structural)]
pub enum ProgramError {
    /// A registry-specific failure.
    Custom(TokenWhitelistError),
    /// A record's bytes do not hold a valid registry.
    InvalidAccountData,
    /// A record's byte buffer is shorter than the registry layout.
    AccountDataTooSmall,
    /// A required authorization proof is absent.
    MissingRequiredSignature,
    /// Fewer record references than the instruction needs.
    NotEnoughAccountKeys,
    /// The registry has already been initialized.
    AccountAlreadyInitialized,
}

impl From<TokenWhitelistError> for ProgramError {
    fn from(e: TokenWhitelistError) -> (r: ProgramError)
        ensures
            r == ProgramError::Custom(e),
    {
        ProgramError::Custom(e)
    }
}

impl vstd::std_specs::convert::FromSpecImpl<TokenWhitelistError> for ProgramError {
    open spec fn obeys_from_spec() -> bool {
        true
    }

    open spec fn from_spec(e: TokenWhitelistError) -> ProgramError {
        ProgramError::Custom(e)
    }
}

} // verus!
