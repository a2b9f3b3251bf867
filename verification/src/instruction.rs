//! The wire decoder: instruction bytes to a typed instruction.
//!
//! The wire encoding is a single discriminant byte (0 = initialize,
//! 1 = increment, 2 = decrement) followed by no payload; anything else
//! is malformed.

use vstd::prelude::*;
use crate::error::CounterError;

verus! {

/// One of the three operations the counter program performs.
#[derive(Clone, Copy, Debug, PartialEq, Eq, Structural)]
pub enum CounterInstruction {
    /// Create the counter record: count zero, authority = the signer.
    ///
    /// Accounts expected:
    /// 0. `[signer]` The account that pays for and owns the counter
    /// 1. `[writable]` The counter account to create
    Initialize,
    /// Add one to the stored count.
    ///
    /// Accounts expected:
    /// 0. `[signer]` The authority account
    /// 1. `[writable]` The counter account to increment
    Increment,
    /// Subtract one from the stored count.
    ///
    /// Accounts expected:
    /// 0. `[signer]` The authority account
    /// 1. `[writable]` The counter account to decrement
    Decrement,
}

/// The instruction a byte sequence encodes, if any: exactly one
/// discriminant byte and nothing after it.
pub open spec fn spec_decode(bytes: Seq<u8>) -> Option<CounterInstruction> {
    if bytes.len() == 1 {
        if bytes[0] == 0 {
            Some(CounterInstruction::Initialize)
        } else if bytes[0] == 1 {
            Some(CounterInstruction::Increment)
        } else if bytes[0] == 2 {
            Some(CounterInstruction::Decrement)
        } else {
            None
        }
    } else {
        None
    }
}

impl CounterInstruction {
    /// Decode an instruction from its wire bytes; every byte sequence
    /// other than the three one-byte encodings is rejected.
    pub fn try_from_slice(bytes: &[u8]) -> (r: Result<CounterInstruction, CounterError>)
        ensures
            match r {
                Ok(instr) => spec_decode(bytes@) == Some(instr),
                Err(e) => spec_decode(bytes@) is None && e == CounterError::MalformedInstruction,
            },
    {
        if bytes.len() != 1 {
            return Err(CounterError::MalformedInstruction);
        }
        let tag = bytes[0];
        if tag == 0 {
            Ok(CounterInstruction::Initialize)
        } else if tag == 1 {
            Ok(CounterInstruction::Increment)
        } else if tag == 2 {
            Ok(CounterInstruction::Decrement)
        } else {
            Err(CounterError::MalformedInstruction)
        }
    }
}

} // verus!
