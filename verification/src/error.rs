//! The error taxonomy of the counter program.
//!
//! Every failing call returns exactly one of these kinds; each maps
//! one-to-one to a distinct caller-visible reason, and none is
//! recoverable inside the library.

use vstd::prelude::*;

verus! {

/// Why a call to the counter program failed.
#[derive(Clone, Copy, Debug, PartialEq, Eq, Structural)]
pub enum CounterError {
    /// The instruction bytes do not decode to a recognized instruction.
    MalformedInstruction,
    /// Fewer than the two required account references were supplied.
    NotEnoughAccounts,
    /// The required authority did not sign the call.
    MissingSignature,
    /// The counter account is not owned by the calling program.
    WrongOwner,
    /// The counter account already holds a record.
    AlreadyInitialized,
    /// The counter account buffer is shorter than the fixed record width.
    BufferTooSmall,
    /// The counter account balance is below the rent-exemption threshold.
    NotRentExempt,
    /// The existing buffer does not decode as a valid record.
    MalformedState,
    /// The stored authority differs from the signer presented.
    AuthorityMismatch,
    /// The count would leave the representable range (overflow on
    /// increment, underflow on decrement).
    ArithmeticOverflow,
}

} // verus!
