//! Laws of the counter program, each proved over the specification
//! functions that the executable functions' contracts are stated with.
//!
//! Buffer preservation on failure is not restated here: the contracts
//! of the processing functions already say that every failing call
//! leaves every account exactly as it was.

use vstd::prelude::*;
use crate::error::CounterError;
use crate::processor::AccountRef;
use crate::processor::all_zero;
use crate::processor::spec_initialize;
use crate::processor::spec_step;
use crate::state::RECORD_WIDTH;
use crate::state::lemma_deserialize_then_serialize;
use crate::state::lemma_serialize_then_deserialize;
use crate::state::spec_parse_authority;
use crate::state::spec_parse_count;
use crate::state::spec_record_bytes;

verus! {

broadcast use vstd::array::group_array_axioms;

/// Initialize succeeds exactly once: on a signing payer and a
/// program-owned counter account that holds no record yet, is at least
/// record-width, and meets the rent-exemption threshold, initialize
/// succeeds and yields count zero with the payer as authority; a
/// second initialize on the resulting account fails with
/// `AlreadyInitialized`. The payer identity must have a nonzero byte:
/// a record whose serialization is all zero bytes is indistinguishable
/// from an uninitialized buffer.
pub proof fn lemma_initialize_exactly_once(
    program_id: Seq<u8>,
    payer: AccountRef,
    counter: AccountRef,
    rent_minimum_balance: u64,
    second_payer: AccountRef,
    counter_after: AccountRef,
)
    requires
        payer.is_signer,
        counter.owner@ == program_id,
        all_zero(counter.data@),
        counter.data@.len() >= RECORD_WIDTH,
        counter.lamports >= rent_minimum_balance,
        !all_zero(payer.id@),
        second_payer.is_signer,
        counter_after.owner@ == program_id,
        counter_after.data@ == spec_initialize(
            program_id,
            payer,
            counter,
            rent_minimum_balance,
        )->Ok_0,
    ensures
        spec_initialize(program_id, payer, counter, rent_minimum_balance) is Ok,
        spec_parse_count(counter_after.data@) == 0,
        spec_parse_authority(counter_after.data@) == payer.id@,
        spec_initialize(program_id, second_payer, counter_after, rent_minimum_balance)
            == Err::<Seq<u8>, CounterError>(CounterError::AlreadyInitialized),
{
    lemma_serialize_then_deserialize(0, payer.id@);
    let bytes = spec_record_bytes(0, payer.id@);
    let data = counter_after.data@;
    assert(data.subrange(0, 8) =~= bytes.subrange(0, 8));
    assert(data.subrange(8, RECORD_WIDTH as int) =~= bytes.subrange(8, RECORD_WIDTH as int));
    let k = choose|k: int| 0 <= k < payer.id@.len() && payer.id@[k] != 0;
    assert(data[8 + k] == payer.id@[k]);
    assert(!all_zero(data));
}

/// Increment followed by decrement restores the counter buffer byte
/// for byte: whenever an increment succeeds, a decrement by the same
/// authority on the result succeeds too and yields the buffer the
/// increment started from. A freshly initialized counter goes from count
/// zero to one and back to zero.
pub proof fn lemma_increment_then_decrement(
    authority: AccountRef,
    counter: AccountRef,
    mid: AccountRef,
)
    requires
        spec_step(authority, counter, true) is Ok,
        mid.data@ == spec_step(authority, counter, true)->Ok_0,
    ensures
        spec_step(authority, mid, false) is Ok,
        spec_step(authority, mid, false)->Ok_0 == counter.data@,
{
    let data = counter.data@;
    let count = spec_parse_count(data);
    let stored = spec_parse_authority(data);
    lemma_serialize_then_deserialize((count + 1) as u64, stored);
    let bytes = spec_record_bytes((count + 1) as u64, stored);
    assert(mid.data@.subrange(0, 8) =~= bytes.subrange(0, 8));
    assert(mid.data@.subrange(8, RECORD_WIDTH as int) =~= bytes.subrange(
        8,
        RECORD_WIDTH as int,
    ));
    assert(mid.data@.skip(RECORD_WIDTH as int) =~= data.skip(RECORD_WIDTH as int));
    lemma_deserialize_then_serialize(data);
    assert(spec_step(authority, mid, false)->Ok_0 =~= data);
}

/// A step signed by an identity other than the stored authority fails
/// with `AuthorityMismatch`, in both directions.
pub proof fn lemma_step_authority_mismatch(
    authority: AccountRef,
    counter: AccountRef,
    increment: bool,
)
    requires
        authority.is_signer,
        counter.data@.len() >= RECORD_WIDTH,
        spec_parse_authority(counter.data@) != authority.id@,
    ensures
        spec_step(authority, counter, increment) == Err::<Seq<u8>, CounterError>(
            CounterError::AuthorityMismatch,
        ),
{
}

/// A step without the authority's signature fails with
/// `MissingSignature`, whatever the counter buffer holds: the
/// signature is checked before any decode.
pub proof fn lemma_step_missing_signature(
    authority: AccountRef,
    counter: AccountRef,
    increment: bool,
)
    requires
        !authority.is_signer,
    ensures
        spec_step(authority, counter, increment) == Err::<Seq<u8>, CounterError>(
            CounterError::MissingSignature,
        ),
{
}

/// At the bounds of the representable range the arithmetic is refused:
/// increment at the maximum count and decrement at count zero both
/// fail with `ArithmeticOverflow`.
pub proof fn lemma_step_at_bounds(authority: AccountRef, counter: AccountRef)
    requires
        authority.is_signer,
        counter.data@.len() >= RECORD_WIDTH,
        spec_parse_authority(counter.data@) == authority.id@,
    ensures
        spec_parse_count(counter.data@) == u64::MAX ==> spec_step(authority, counter, true)
            == Err::<Seq<u8>, CounterError>(CounterError::ArithmeticOverflow),
        spec_parse_count(counter.data@) == 0 ==> spec_step(authority, counter, false)
            == Err::<Seq<u8>, CounterError>(CounterError::ArithmeticOverflow),
{
}

/// Initialize on an account whose balance is below the rent-exemption
/// threshold fails with `NotRentExempt`, even when every other
/// validation passes.
pub proof fn lemma_initialize_not_rent_exempt(
    program_id: Seq<u8>,
    payer: AccountRef,
    counter: AccountRef,
    rent_minimum_balance: u64,
)
    requires
        payer.is_signer,
        counter.owner@ == program_id,
        all_zero(counter.data@),
        counter.data@.len() >= RECORD_WIDTH,
        counter.lamports < rent_minimum_balance,
    ensures
        spec_initialize(program_id, payer, counter, rent_minimum_balance)
            == Err::<Seq<u8>, CounterError>(CounterError::NotRentExempt),
{
}

} // verus!
