//! A verified on-chain counter program.
//!
//! A single counter record (an unsigned 64-bit count and a 32-byte
//! authority identity) lives in a host-owned account buffer. The library
//! decodes instruction bytes into one of three operations (initialize,
//! increment, decrement), validates the accounts the host supplies, and
//! mutates the persisted record in place, with every validation and the
//! single buffer write specified and proved.

pub mod error;
pub mod instruction;
pub mod laws;
pub mod processor;
pub mod state;
