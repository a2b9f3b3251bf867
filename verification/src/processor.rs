//! The instruction processor: the validation pipelines of the three
//! operations and the dispatcher the host calls.
//!
//! The processor keeps no state of its own; all state lives in the
//! account buffers the host supplies. Each call is atomic: either every
//! validation passes and exactly one buffer write occurs, or the call
//! fails before any write.

use vstd::prelude::*;
use crate::error::CounterError;
use crate::instruction::CounterInstruction;
use crate::instruction::spec_decode;
use crate::state::CounterAccount;
use crate::state::RECORD_WIDTH;
use crate::state::spec_parse_authority;
use crate::state::spec_parse_count;
use crate::state::spec_record_bytes;

verus! {

broadcast use vstd::array::group_array_axioms;

/// A host-supplied account reference: a keyed, owned, balance-bearing
/// byte buffer, together with whether its controlling identity signed
/// the current call.
pub struct AccountRef {
    /// The key addressing this account in the store.
    pub id: [u8; 32],
    /// Whether the controlling identity signed the current call.
    pub is_signer: bool,
    /// The program that owns this account.
    pub owner: [u8; 32],
    /// The account's balance.
    pub lamports: u64,
    /// The persisted byte buffer, borrowed from the store for the
    /// duration of the call.
    pub data: Vec<u8>,
}

/// Whether a buffer holds no record yet: it is zero-length or all
/// zero bytes.
pub open spec fn all_zero(data: Seq<u8>) -> bool {
    forall|i: int| 0 <= i < data.len() ==> data[i] == 0
}

/// Whether two account references agree on everything but the buffer
/// contents.
pub open spec fn unchanged_but_data(before: AccountRef, after: AccountRef) -> bool {
    &&& after.id == before.id
    &&& after.is_signer == before.is_signer
    &&& after.owner == before.owner
    &&& after.lamports == before.lamports
}

/// The initialize pipeline: the first failing validation, or the bytes
/// the counter buffer holds afterwards (a fresh record with count zero
/// and the payer as authority, the tail beyond the record preserved).
pub open spec fn spec_initialize(
    program_id: Seq<u8>,
    authority: AccountRef,
    counter: AccountRef,
    rent_minimum_balance: u64,
) -> Result<Seq<u8>, CounterError> {
    if !authority.is_signer {
        Err(CounterError::MissingSignature)
    } else if counter.owner@ != program_id {
        Err(CounterError::WrongOwner)
    } else if !all_zero(counter.data@) {
        Err(CounterError::AlreadyInitialized)
    } else if counter.data@.len() < RECORD_WIDTH {
        Err(CounterError::BufferTooSmall)
    } else if counter.lamports < rent_minimum_balance {
        Err(CounterError::NotRentExempt)
    } else {
        Ok(spec_record_bytes(0, authority.id@) + counter.data@.skip(RECORD_WIDTH as int))
    }
}

/// The increment/decrement pipeline, the two differing only in
/// direction: the first failing validation, or the bytes the counter
/// buffer holds afterwards (the stored count moved by one, the stored
/// authority and the tail preserved).
pub open spec fn spec_step(
    authority: AccountRef,
    counter: AccountRef,
    increment: bool,
) -> Result<Seq<u8>, CounterError> {
    if !authority.is_signer {
        Err(CounterError::MissingSignature)
    } else if counter.data@.len() < RECORD_WIDTH {
        Err(CounterError::MalformedState)
    } else if spec_parse_authority(counter.data@) != authority.id@ {
        Err(CounterError::AuthorityMismatch)
    } else if increment && spec_parse_count(counter.data@) == u64::MAX {
        Err(CounterError::ArithmeticOverflow)
    } else if !increment && spec_parse_count(counter.data@) == 0 {
        Err(CounterError::ArithmeticOverflow)
    } else {
        let count = spec_parse_count(counter.data@);
        let moved = if increment { (count + 1) as u64 } else { (count - 1) as u64 };
        Ok(spec_record_bytes(moved, spec_parse_authority(counter.data@))
            + counter.data@.skip(RECORD_WIDTH as int))
    }
}

/// The whole call, from instruction bytes to the counter buffer's new
/// contents: decode, require two accounts, then run the pipeline of
/// the decoded instruction on the authority (position 0) and the
/// counter (position 1).
pub open spec fn spec_process(
    program_id: Seq<u8>,
    accounts: Seq<AccountRef>,
    instruction_data: Seq<u8>,
    rent_minimum_balance: u64,
) -> Result<Seq<u8>, CounterError> {
    match spec_decode(instruction_data) {
        None => Err(CounterError::MalformedInstruction),
        Some(instruction) => {
            if accounts.len() < 2 {
                Err(CounterError::NotEnoughAccounts)
            } else {
                match instruction {
                    CounterInstruction::Initialize => spec_initialize(
                        program_id,
                        accounts[0],
                        accounts[1],
                        rent_minimum_balance,
                    ),
                    CounterInstruction::Increment => spec_step(accounts[0], accounts[1], true),
                    CounterInstruction::Decrement => spec_step(accounts[0], accounts[1], false),
                }
            }
        },
    }
}

/// Whether two 32-byte identities are equal.
fn bytes32_eq(a: &[u8; 32], b: &[u8; 32]) -> (r: bool)
    ensures
        r == (a@ == b@),
{
    let mut i: usize = 0;
    while i < 32
        invariant
            i <= 32,
            forall|j: int| 0 <= j < i ==> a@[j] == b@[j],
        decreases 32 - i,
    {
        if a[i] != b[i] {
            assert(a@ != b@);
            return false;
        }
        i += 1;
    }
    proof {
        assert(a@ =~= b@);
    }
    true
}

/// Whether every byte of a buffer is zero (vacuously so for an empty
/// buffer).
fn is_all_zero(data: &Vec<u8>) -> (r: bool)
    ensures
        r == all_zero(data@),
{
    let mut i: usize = 0;
    while i < data.len()
        invariant
            i <= data@.len(),
            forall|j: int| 0 <= j < i ==> data@[j] == 0,
        decreases data@.len() - i,
    {
        if data[i] != 0 {
            return false;
        }
        i += 1;
    }
    true
}

/// Initialize a fresh counter: validate the payer's signature, the
/// counter's ownership, that it holds no record yet, its width and its
/// rent-exempt balance, then write a record with count zero and the
/// payer as authority. On failure nothing is written.
pub fn initialize_counter(
    program_id: &[u8; 32],
    authority: &AccountRef,
    counter: &mut AccountRef,
    rent_minimum_balance: u64,
) -> (r: Result<(), CounterError>)
    ensures
        unchanged_but_data(*old(counter), *final(counter)),
        match r {
            Ok(()) => spec_initialize(program_id@, *authority, *old(counter), rent_minimum_balance)
                == Ok::<Seq<u8>, CounterError>(final(counter).data@),
            Err(e) => *final(counter) == *old(counter)
                && spec_initialize(program_id@, *authority, *old(counter), rent_minimum_balance)
                    == Err::<Seq<u8>, CounterError>(e),
        },
{
    if !authority.is_signer {
        return Err(CounterError::MissingSignature);
    }
    if !bytes32_eq(&counter.owner, program_id) {
        return Err(CounterError::WrongOwner);
    }
    if !is_all_zero(&counter.data) {
        return Err(CounterError::AlreadyInitialized);
    }
    if counter.data.len() < RECORD_WIDTH {
        return Err(CounterError::BufferTooSmall);
    }
    if counter.lamports < rent_minimum_balance {
        return Err(CounterError::NotRentExempt);
    }
    let record = CounterAccount { count: 0, authority: authority.id };
    record.serialize_into(&mut counter.data);
    Ok(())
}

/// Move the stored count by one: validate the authority's signature,
/// decode the record, check the stored authority against the signer,
/// apply the checked arithmetic, then write the record back. On
/// failure nothing is written.
fn step_counter(
    authority: &AccountRef,
    counter: &mut AccountRef,
    increment: bool,
) -> (r: Result<(), CounterError>)
    ensures
        unchanged_but_data(*old(counter), *final(counter)),
        match r {
            Ok(()) => spec_step(*authority, *old(counter), increment)
                == Ok::<Seq<u8>, CounterError>(final(counter).data@),
            Err(e) => *final(counter) == *old(counter)
                && spec_step(*authority, *old(counter), increment)
                    == Err::<Seq<u8>, CounterError>(e),
        },
{
    if !authority.is_signer {
        return Err(CounterError::MissingSignature);
    }
    let record = match CounterAccount::try_from_slice(counter.data.as_slice()) {
        Ok(rec) => rec,
        Err(e) => {
            return Err(e);
        },
    };
    if !bytes32_eq(&record.authority, &authority.id) {
        return Err(CounterError::AuthorityMismatch);
    }
    let moved: u64 = if increment {
        match record.count.checked_add(1) {
            Some(c) => c,
            None => {
                return Err(CounterError::ArithmeticOverflow);
            },
        }
    } else {
        match record.count.checked_sub(1) {
            Some(c) => c,
            None => {
                return Err(CounterError::ArithmeticOverflow);
            },
        }
    };
    let updated = CounterAccount { count: moved, authority: record.authority };
    updated.serialize_into(&mut counter.data);
    Ok(())
}

/// Add one to the stored count, under the stored authority's
/// signature.
pub fn increment_counter(authority: &AccountRef, counter: &mut AccountRef) -> (r: Result<
    (),
    CounterError,
>)
    ensures
        unchanged_but_data(*old(counter), *final(counter)),
        match r {
            Ok(()) => spec_step(*authority, *old(counter), true)
                == Ok::<Seq<u8>, CounterError>(final(counter).data@),
            Err(e) => *final(counter) == *old(counter)
                && spec_step(*authority, *old(counter), true)
                    == Err::<Seq<u8>, CounterError>(e),
        },
{
    step_counter(authority, counter, true)
}

/// Subtract one from the stored count, under the stored authority's
/// signature.
pub fn decrement_counter(authority: &AccountRef, counter: &mut AccountRef) -> (r: Result<
    (),
    CounterError,
>)
    ensures
        unchanged_but_data(*old(counter), *final(counter)),
        match r {
            Ok(()) => spec_step(*authority, *old(counter), false)
                == Ok::<Seq<u8>, CounterError>(final(counter).data@),
            Err(e) => *final(counter) == *old(counter)
                && spec_step(*authority, *old(counter), false)
                    == Err::<Seq<u8>, CounterError>(e),
        },
{
    step_counter(authority, counter, false)
}

/// The exported entry point: decode the instruction bytes, require the
/// two-account shape, and run the decoded operation on the authority
/// (position 0) and the counter (position 1). Only the counter's
/// buffer is ever written, and only on success; every failing call
/// leaves every account exactly as it was. The rent-exemption
/// threshold for the record width is an explicit input, supplied by
/// the host's rent policy.
pub fn process_instruction(
    program_id: &[u8; 32],
    accounts: &mut Vec<AccountRef>,
    instruction_data: &[u8],
    rent_minimum_balance: u64,
) -> (r: Result<(), CounterError>)
    ensures
        final(accounts)@.len() == old(accounts)@.len(),
        forall|i: int|
            0 <= i < old(accounts)@.len() && i != 1 ==> final(accounts)@[i] == old(accounts)@[i],
        match r {
            Ok(()) => old(accounts)@.len() >= 2
                && spec_process(program_id@, old(accounts)@, instruction_data@, rent_minimum_balance)
                    == Ok::<Seq<u8>, CounterError>(final(accounts)@[1].data@)
                && unchanged_but_data(old(accounts)@[1], final(accounts)@[1]),
            Err(e) => final(accounts)@ == old(accounts)@
                && spec_process(program_id@, old(accounts)@, instruction_data@, rent_minimum_balance)
                    == Err::<Seq<u8>, CounterError>(e),
        },
{
    let instruction = match CounterInstruction::try_from_slice(instruction_data) {
        Ok(instr) => instr,
        Err(e) => {
            return Err(e);
        },
    };
    if accounts.len() < 2 {
        return Err(CounterError::NotEnoughAccounts);
    }
    let mut counter = accounts.remove(1);
    let res = match instruction {
        CounterInstruction::Initialize => initialize_counter(
            program_id,
            &accounts[0],
            &mut counter,
            rent_minimum_balance,
        ),
        CounterInstruction::Increment => increment_counter(&accounts[0], &mut counter),
        CounterInstruction::Decrement => decrement_counter(&accounts[0], &mut counter),
    };
    accounts.insert(1, counter);
    proof {
        assert(accounts@ =~= old(accounts)@.update(1, accounts@[1]));
        if res is Err {
            assert(accounts@ =~= old(accounts)@);
        }
    }
    res
}

} // verus!
