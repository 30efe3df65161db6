//! Errors that the engine reports.

use vstd::prelude::*;

verus! {

/// Failures of the curve rules.
#[derive(Clone, Copy, Debug, PartialEq, Eq, Structural)]
pub enum SwapError {
    /// The curve's effective price or rate is zero.
    InvalidCurve,
    /// The pool would start with none of the reference token.
    EmptySupply,
    /// A computation overflowed or divided by zero.
    CalculationFailure,
    /// A rate-based curve was asked to work without a timestamp.
    MissingTimestamp,
    /// The checkpoint time lies in the future or moves backwards.
    InvalidRho,
    /// The per-second rate is below one or above its cap.
    InvalidSsr,
    /// The index shrinks or grows faster than the cap allows.
    InvalidChi,
    /// The permission record does not allow the operation.
    InvalidUpdatePermission,
    /// The permission record sits at an unexpected address.
    InvalidPermissionAddress,
}

/// Failures as the surrounding program sees them.
#[derive(Clone, Copy, Debug, PartialEq, Eq, Structural)]
pub enum ProgramError {
    /// A failure of the curve rules.
    Custom(SwapError),
    /// Wide arithmetic left its range.
    ArithmeticOverflow,
    /// Stored bytes do not describe what was expected.
    InvalidAccountData,
    /// An account belongs to another program than it should.
    IllegalOwner,
    /// The authority did not sign.
    MissingRequiredSignature,
    /// A record was read before it was written.
    UninitializedAccount,
    /// An account that should be the system program is not.
    IncorrectProgramId,
    /// A record that is to be created exists already.
    AccountAlreadyInitialized,
}

impl ProgramError {
    /// Wraps a failure of the curve rules.
    pub fn from_swap_error(e: SwapError) -> (r: ProgramError)
        ensures
            r == ProgramError::Custom(e),
    {
        ProgramError::Custom(e)
    }
}

} // verus!
