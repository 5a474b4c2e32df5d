//! The failures a swap or a configuration change can end in.

use vstd::prelude::*;

verus! {

/// Why an invocation was rejected. Every failure is final: nothing is retried
/// and the surrounding transaction is abandoned as a whole.
#[derive(Clone, Copy, Debug, PartialEq, Eq, Structural)]
pub enum RaceswapError {
    /// A fee rate is out of bounds, or the rates sum to a full share or more.
    InvalidFeeConfig,
    /// A fee or balance computation left the 64-bit range.
    MathOverflow,
    /// The configuration was changed by someone other than its authority.
    Unauthorized,
    /// A reflection leg is required and the request carries none.
    MissingReflectionLeg,
    /// The request carries no main leg.
    MissingMainLeg,
    /// The request carries a reflection leg that is not required.
    UnexpectedReflectionLeg,
    /// The input amount is zero.
    InvalidAmount,
    /// The reflection destination is bound to another mint, owner or token program.
    InvalidReflectionAccount,
    /// The main destination is bound to another mint, owner or token program.
    InvalidMainAccount,
    /// The holding account is of another mint than the input.
    InvalidVaultMint,
    /// The holding account is not owned by the derived authority.
    InvalidVaultOwner,
    /// The source account is bound to another mint or owner.
    InvalidUserSource,
    /// The reflection leg realized less than its minimum, or nothing.
    ReflectionBelowMinOut,
    /// The main leg realized less than its minimum.
    MainBelowMinOut,
    /// The forwarded call failed.
    SwapCpiFailed,
    /// A leg names accounts that were not supplied, or supplied accounts were left over.
    AccountMismatch,
    /// The reflection destination's balance went down across its leg.
    InvalidReflectionAccounting,
    /// The main destination's balance went down across its leg.
    InvalidMainAccounting,
    /// The reflection share is zero but instructions were provided for it.
    InvalidReflectionSplit,
    /// No bump seed yields an address for the derived authority.
    BumpMissing,
    /// The treasury account or its mint is not the expected one.
    InvalidTreasuryAccount,
    /// The input mint is not owned by the token program that was provided.
    InvalidInputMintOwner,
    /// The input mint's record is too short to be a mint.
    InvalidInputMint,
}

/// The number from which error codes are counted.
pub const ERROR_CODE_OFFSET: u32 = 6_000;

impl RaceswapError {
    /// The position of the error in the list of errors, from zero.
    pub open spec fn ordinal(self) -> nat {
        match self {
            RaceswapError::InvalidFeeConfig => 0,
            RaceswapError::MathOverflow => 1,
            RaceswapError::Unauthorized => 2,
            RaceswapError::MissingReflectionLeg => 3,
            RaceswapError::MissingMainLeg => 4,
            RaceswapError::UnexpectedReflectionLeg => 5,
            RaceswapError::InvalidAmount => 6,
            RaceswapError::InvalidReflectionAccount => 7,
            RaceswapError::InvalidMainAccount => 8,
            RaceswapError::InvalidVaultMint => 9,
            RaceswapError::InvalidVaultOwner => 10,
            RaceswapError::InvalidUserSource => 11,
            RaceswapError::ReflectionBelowMinOut => 12,
            RaceswapError::MainBelowMinOut => 13,
            RaceswapError::SwapCpiFailed => 14,
            RaceswapError::AccountMismatch => 15,
            RaceswapError::InvalidReflectionAccounting => 16,
            RaceswapError::InvalidMainAccounting => 17,
            RaceswapError::InvalidReflectionSplit => 18,
            RaceswapError::BumpMissing => 19,
            RaceswapError::InvalidTreasuryAccount => 20,
            RaceswapError::InvalidInputMintOwner => 21,
            RaceswapError::InvalidInputMint => 22,
        }
    }

    /// The text that a failed transaction carries for the error.
    pub open spec fn text(self) -> Seq<char> {
        match self {
            RaceswapError::InvalidFeeConfig => "Invalid fee configuration"@,
            RaceswapError::MathOverflow => "Math overflow"@,
            RaceswapError::Unauthorized => "Unauthorized"@,
            RaceswapError::MissingReflectionLeg => "Reflection leg required"@,
            RaceswapError::MissingMainLeg => "Main leg required"@,
            RaceswapError::UnexpectedReflectionLeg => "Reflection leg unexpected when disabled or dusted"@,
            RaceswapError::InvalidAmount => "Invalid amount"@,
            RaceswapError::InvalidReflectionAccount => "Invalid reflection token account"@,
            RaceswapError::InvalidMainAccount => "Invalid main token account"@,
            RaceswapError::InvalidVaultMint => "Invalid vault mint"@,
            RaceswapError::InvalidVaultOwner => "Invalid vault owner - must be swap_authority PDA"@,
            RaceswapError::InvalidUserSource => "Invalid user source account"@,
            RaceswapError::ReflectionBelowMinOut => "Reflection amount below min"@,
            RaceswapError::MainBelowMinOut => "Main amount below min"@,
            RaceswapError::SwapCpiFailed => "Swap CPI failed"@,
            RaceswapError::AccountMismatch => "Account mismatch for serialized instruction"@,
            RaceswapError::InvalidReflectionAccounting => "Invalid reflection accounting delta"@,
            RaceswapError::InvalidMainAccounting => "Invalid main accounting delta"@,
            RaceswapError::InvalidReflectionSplit => "Reflection split is zero but instructions provided"@,
            RaceswapError::BumpMissing => "Bump missing"@,
            RaceswapError::InvalidTreasuryAccount => "Invalid treasury token account or mint"@,
            RaceswapError::InvalidInputMintOwner => "Input mint owner does not match provided token program"@,
            RaceswapError::InvalidInputMint => "Invalid input mint"@,
        }
    }

    /// The code that a failed transaction carries for the error: the offset
    /// plus the error's position in the list.
    pub fn code(&self) -> (code: u32)
        ensures
            code == ERROR_CODE_OFFSET + self.ordinal(),
    {
        let ordinal: u32 = match self {
            RaceswapError::InvalidFeeConfig => 0,
            RaceswapError::MathOverflow => 1,
            RaceswapError::Unauthorized => 2,
            RaceswapError::MissingReflectionLeg => 3,
            RaceswapError::MissingMainLeg => 4,
            RaceswapError::UnexpectedReflectionLeg => 5,
            RaceswapError::InvalidAmount => 6,
            RaceswapError::InvalidReflectionAccount => 7,
            RaceswapError::InvalidMainAccount => 8,
            RaceswapError::InvalidVaultMint => 9,
            RaceswapError::InvalidVaultOwner => 10,
            RaceswapError::InvalidUserSource => 11,
            RaceswapError::ReflectionBelowMinOut => 12,
            RaceswapError::MainBelowMinOut => 13,
            RaceswapError::SwapCpiFailed => 14,
            RaceswapError::AccountMismatch => 15,
            RaceswapError::InvalidReflectionAccounting => 16,
            RaceswapError::InvalidMainAccounting => 17,
            RaceswapError::InvalidReflectionSplit => 18,
            RaceswapError::BumpMissing => 19,
            RaceswapError::InvalidTreasuryAccount => 20,
            RaceswapError::InvalidInputMintOwner => 21,
            RaceswapError::InvalidInputMint => 22,
        };
        ERROR_CODE_OFFSET + ordinal
    }

    /// The text that a failed transaction carries for the error.
    pub fn message(&self) -> (message: &'static str)
        ensures
            message@ == self.text(),
    {
        match self {
            RaceswapError::InvalidFeeConfig => "Invalid fee configuration",
            RaceswapError::MathOverflow => "Math overflow",
            RaceswapError::Unauthorized => "Unauthorized",
            RaceswapError::MissingReflectionLeg => "Reflection leg required",
            RaceswapError::MissingMainLeg => "Main leg required",
            RaceswapError::UnexpectedReflectionLeg => "Reflection leg unexpected when disabled or dusted",
            RaceswapError::InvalidAmount => "Invalid amount",
            RaceswapError::InvalidReflectionAccount => "Invalid reflection token account",
            RaceswapError::InvalidMainAccount => "Invalid main token account",
            RaceswapError::InvalidVaultMint => "Invalid vault mint",
            RaceswapError::InvalidVaultOwner => "Invalid vault owner - must be swap_authority PDA",
            RaceswapError::InvalidUserSource => "Invalid user source account",
            RaceswapError::ReflectionBelowMinOut => "Reflection amount below min",
            RaceswapError::MainBelowMinOut => "Main amount below min",
            RaceswapError::SwapCpiFailed => "Swap CPI failed",
            RaceswapError::AccountMismatch => "Account mismatch for serialized instruction",
            RaceswapError::InvalidReflectionAccounting => "Invalid reflection accounting delta",
            RaceswapError::InvalidMainAccounting => "Invalid main accounting delta",
            RaceswapError::InvalidReflectionSplit => "Reflection split is zero but instructions provided",
            RaceswapError::BumpMissing => "Bump missing",
            RaceswapError::InvalidTreasuryAccount => "Invalid treasury token account or mint",
            RaceswapError::InvalidInputMintOwner => "Input mint owner does not match provided token program",
            RaceswapError::InvalidInputMint => "Invalid input mint",
        }
    }
}

} // verus!
