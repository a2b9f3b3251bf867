//! The state codec: the counter record and its fixed-layout encoding.
//!
//! A record is persisted as 8 bytes of unsigned little-endian count
//! followed by the 32 authority bytes, 40 bytes in all; the buffer may
//! be larger, and the unused tail is ignored on read and preserved on
//! write.

use vstd::prelude::*;
use vstd::bytes::lemma_auto_spec_u64_to_from_le_bytes;
use vstd::bytes::spec_u64_from_le_bytes;
use vstd::bytes::spec_u64_to_le_bytes;
use vstd::bytes::u64_from_le_bytes;
use vstd::bytes::u64_to_le_bytes;
use vstd::slice::slice_subrange;
use crate::error::CounterError;

verus! {

broadcast use vstd::array::group_array_axioms;

/// Width in bytes of an encoded record: 8 for the count, 32 for the
/// authority identity.
pub const RECORD_WIDTH: usize = 40;

/// The counter record stored in the counter account's buffer.
#[derive(Clone, Copy, Debug, PartialEq, Eq)]
pub struct CounterAccount {
    /// The current count value.
    pub count: u64,
    /// The identity permitted to modify this counter.
    pub authority: [u8; 32],
}

/// The encoding of a record: the count in little-endian order, then the
/// authority bytes verbatim.
pub open spec fn spec_record_bytes(count: u64, authority: Seq<u8>) -> Seq<u8> {
    spec_u64_to_le_bytes(count) + authority
}

/// The count a buffer holds: its first 8 bytes read as a little-endian
/// unsigned integer.
pub open spec fn spec_parse_count(data: Seq<u8>) -> u64 {
    spec_u64_from_le_bytes(data.subrange(0, 8))
}

/// The authority a buffer holds: its bytes 8 through 39.
pub open spec fn spec_parse_authority(data: Seq<u8>) -> Seq<u8> {
    data.subrange(8, RECORD_WIDTH as int)
}

impl CounterAccount {
    /// Decode a record from a buffer. Succeeds exactly when the buffer
    /// is at least the fixed record width; the tail beyond it is
    /// ignored.
    pub fn try_from_slice(data: &[u8]) -> (r: Result<CounterAccount, CounterError>)
        ensures
            match r {
                Ok(rec) => data@.len() >= RECORD_WIDTH
                    && rec.count == spec_parse_count(data@)
                    && rec.authority@ == spec_parse_authority(data@),
                Err(e) => data@.len() < RECORD_WIDTH && e == CounterError::MalformedState,
            },
    {
        if data.len() < RECORD_WIDTH {
            return Err(CounterError::MalformedState);
        }
        let count = u64_from_le_bytes(slice_subrange(data, 0, 8));
        let mut authority: [u8; 32] = [0u8; 32];
        let mut i: usize = 0;
        while i < 32
            invariant
                i <= 32,
                data@.len() >= RECORD_WIDTH,
                forall|j: int| 0 <= j < i ==> authority@[j] == data@[8 + j],
            decreases 32 - i,
        {
            authority[i] = data[8 + i];
            i += 1;
        }
        proof {
            assert(authority@ =~= spec_parse_authority(data@));
        }
        Ok(CounterAccount { count, authority })
    }

    /// Encode this record into the first 40 bytes of a buffer, leaving
    /// the buffer's length and its tail beyond the record untouched.
    pub fn serialize_into(&self, data: &mut Vec<u8>)
        requires
            old(data)@.len() >= RECORD_WIDTH,
        ensures
            final(data)@.len() == old(data)@.len(),
            final(data)@ == spec_record_bytes(self.count, self.authority@)
                + old(data)@.skip(RECORD_WIDTH as int),
    {
        proof {
            lemma_auto_spec_u64_to_from_le_bytes();
        }
        let count_bytes: Vec<u8> = u64_to_le_bytes(self.count);
        let mut i: usize = 0;
        while i < 8
            invariant
                i <= 8,
                data@.len() == old(data)@.len(),
                old(data)@.len() >= RECORD_WIDTH,
                count_bytes@ == spec_u64_to_le_bytes(self.count),
                count_bytes@.len() == 8,
                forall|k: int| 0 <= k < i ==> data@[k] == count_bytes@[k],
                forall|k: int| i <= k < data@.len() ==> data@[k] == old(data)@[k],
            decreases 8 - i,
        {
            data.set(i, count_bytes[i]);
            i += 1;
        }
        let mut j: usize = 0;
        while j < 32
            invariant
                j <= 32,
                data@.len() == old(data)@.len(),
                old(data)@.len() >= RECORD_WIDTH,
                count_bytes@ == spec_u64_to_le_bytes(self.count),
                count_bytes@.len() == 8,
                forall|k: int| 0 <= k < 8 ==> data@[k] == count_bytes@[k],
                forall|k: int| 0 <= k < j ==> data@[8 + k] == self.authority@[k],
                forall|k: int| 8 + j <= k < data@.len() ==> data@[k] == old(data)@[k],
            decreases 32 - j,
        {
            data.set(8 + j, self.authority[j]);
            j += 1;
        }
        proof {
            assert(data@ =~= spec_record_bytes(self.count, self.authority@)
                + old(data)@.skip(RECORD_WIDTH as int));
        }
    }
}

/// Round-trip law: a serialized record reads back field for field, for
/// every count and every 32-byte authority.
pub proof fn lemma_serialize_then_deserialize(count: u64, authority: Seq<u8>)
    requires
        authority.len() == 32,
    ensures
        spec_record_bytes(count, authority).len() == RECORD_WIDTH,
        spec_parse_count(spec_record_bytes(count, authority)) == count,
        spec_parse_authority(spec_record_bytes(count, authority)) == authority,
{
    lemma_auto_spec_u64_to_from_le_bytes();
    let bytes = spec_record_bytes(count, authority);
    assert(bytes.subrange(0, 8) =~= spec_u64_to_le_bytes(count));
    assert(bytes.subrange(8, RECORD_WIDTH as int) =~= authority);
}

/// Canonical-encoding law, the round trip in the other direction: any
/// buffer wide enough to hold a record equals, over the record's 40
/// bytes, the serialization of the fields read from it.
pub proof fn lemma_deserialize_then_serialize(data: Seq<u8>)
    requires
        data.len() >= RECORD_WIDTH,
    ensures
        spec_record_bytes(spec_parse_count(data), spec_parse_authority(data))
            == data.take(RECORD_WIDTH as int),
{
    lemma_auto_spec_u64_to_from_le_bytes();
    assert(data.subrange(0, 8).len() == 8);
    assert(spec_record_bytes(spec_parse_count(data), spec_parse_authority(data))
        =~= data.take(RECORD_WIDTH as int));
}

} // verus!
