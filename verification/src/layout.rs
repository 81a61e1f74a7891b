//! The bit layout of an identifier.
//!
//! From the most significant bit down: one unused bit, 41 bits of timestamp,
//! 10 bits of worker identifier, 12 bits of sequence number.

use vstd::prelude::*;

verus! {

/// All 41 bits of the timestamp field.
pub const TIMESTAMP_MASK: u64 = 0x1FF_FFFF_FFFF;

/// All 10 bits of the worker field; also the largest worker identifier.
pub const WORKER_ID_MASK: u64 = 0x3FF;

/// All 12 bits of the sequence field; also the largest sequence number.
pub const SEQUENCE_MASK: u64 = 0xFFF;

/// Number of bits below the timestamp field.
pub const TIMESTAMP_SHIFT: u64 = 22;

/// Number of bits below the worker field.
pub const WORKER_ID_SHIFT: u64 = 12;

/// The identifier made of the three fields, each reduced to its width.
pub open spec fn snowflake(worker_id: nat, sequence: nat, timestamp: nat) -> nat {
    (timestamp % 0x200_0000_0000) * 0x40_0000 + (worker_id % 0x400) * 0x1000 + sequence % 0x1000
}

/// The timestamp field of an identifier.
pub open spec fn timestamp_of(id: nat) -> nat {
    (id / 0x40_0000) % 0x200_0000_0000
}

/// The worker field of an identifier.
pub open spec fn worker_id_of(id: nat) -> nat {
    (id / 0x1000) % 0x400
}

/// The sequence field of an identifier.
pub open spec fn sequence_of(id: nat) -> nat {
    id % 0x1000
}

/// Packs the three fields into an identifier. A value wider than its field
/// loses its upper bits.
pub fn format_snowflake(worker_id: u64, sequence: u64, timestamp: u64) -> (id: u64)
    ensures
        id == snowflake(worker_id as nat, sequence as nat, timestamp as nat),
        id == ((timestamp & 0x1FF_FFFF_FFFF) << 22) | ((worker_id & 0x3FF) << 12) | (sequence
            & 0xFFF),
{
    let id: u64 = ((timestamp & TIMESTAMP_MASK) << TIMESTAMP_SHIFT) | ((worker_id & WORKER_ID_MASK)
        << WORKER_ID_SHIFT) | (sequence & SEQUENCE_MASK);
    assert(((timestamp & 0x1FF_FFFF_FFFF) << 22) | ((worker_id & 0x3FF) << 12) | (sequence & 0xFFF)
        == (timestamp % 0x200_0000_0000) * 0x40_0000 + (worker_id % 0x400) * 0x1000 + sequence
        % 0x1000) by (bit_vector);
    id
}

/// Reads the timestamp field.
pub fn extract_timestamp(id: u64) -> (timestamp: u64)
    ensures
        timestamp == timestamp_of(id as nat),
        timestamp == (id >> 22) & 0x1FF_FFFF_FFFF,
{
    assert((id >> 22) & 0x1FF_FFFF_FFFF == (id / 0x40_0000) % 0x200_0000_0000) by (bit_vector);
    (id >> TIMESTAMP_SHIFT) & TIMESTAMP_MASK
}

/// Reads the worker field.
pub fn extract_worker_id(id: u64) -> (worker_id: u64)
    ensures
        worker_id == worker_id_of(id as nat),
        worker_id == (id >> 12) & 0x3FF,
{
    assert((id >> 12) & 0x3FF == (id / 0x1000) % 0x400) by (bit_vector);
    (id >> WORKER_ID_SHIFT) & WORKER_ID_MASK
}

/// Reads the sequence field.
pub fn extract_sequence(id: u64) -> (sequence: u64)
    ensures
        sequence == sequence_of(id as nat),
        sequence == id & 0xFFF,
{
    assert(id & 0xFFF == id % 0x1000) by (bit_vector);
    id & SEQUENCE_MASK
}

/// Every identifier fits in 63 bits.
pub proof fn lemma_snowflake_bound(worker_id: nat, sequence: nat, timestamp: nat)
    ensures
        snowflake(worker_id, sequence, timestamp) < 0x8000_0000_0000_0000,
{
}

/// Packing fields that fit their widths and reading them back gives the
/// fields again.
pub proof fn lemma_round_trip(worker_id: nat, sequence: nat, timestamp: nat)
    requires
        worker_id <= 0x3FF,
        sequence <= 0xFFF,
        timestamp <= 0x1FF_FFFF_FFFF,
    ensures
        timestamp_of(snowflake(worker_id, sequence, timestamp)) == timestamp,
        worker_id_of(snowflake(worker_id, sequence, timestamp)) == worker_id,
        sequence_of(snowflake(worker_id, sequence, timestamp)) == sequence,
{
}

/// Reading the fields of any packed identifier gives the fields reduced to
/// their widths.
pub proof fn lemma_fields_of_snowflake(worker_id: nat, sequence: nat, timestamp: nat)
    ensures
        timestamp_of(snowflake(worker_id, sequence, timestamp)) == timestamp % 0x200_0000_0000,
        worker_id_of(snowflake(worker_id, sequence, timestamp)) == worker_id % 0x400,
        sequence_of(snowflake(worker_id, sequence, timestamp)) == sequence % 0x1000,
{
}

/// Packing a value gives what packing its low bits gives: the bits above a
/// field's width do not reach the identifier.
pub proof fn lemma_truncation(worker_id: u64, sequence: u64, timestamp: u64)
    ensures
        snowflake(worker_id as nat, sequence as nat, timestamp as nat) == snowflake(
            (worker_id & 0x3FF) as nat,
            (sequence & 0xFFF) as nat,
            (timestamp & 0x1FF_FFFF_FFFF) as nat,
        ),
{
    assert(worker_id & 0x3FF == worker_id % 0x400) by (bit_vector);
    assert(sequence & 0xFFF == sequence % 0x1000) by (bit_vector);
    assert(timestamp & 0x1FF_FFFF_FFFF == timestamp % 0x200_0000_0000) by (bit_vector);
}

/// For one worker, identifiers are ordered as their (timestamp, sequence)
/// pairs are, as long as both fit their fields.
pub proof fn lemma_order(worker_id: nat, seq_a: nat, ts_a: nat, seq_b: nat, ts_b: nat)
    requires
        seq_a <= 0xFFF,
        seq_b <= 0xFFF,
        ts_b <= 0x1FF_FFFF_FFFF,
        ts_a < ts_b || (ts_a == ts_b && seq_a < seq_b),
    ensures
        snowflake(worker_id, seq_a, ts_a) < snowflake(worker_id, seq_b, ts_b),
{
}

} // verus!
