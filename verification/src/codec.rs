//! Binary decoding of a raw clock-account payload into a structured snapshot.
//!
//! The payload is a fixed little-endian layout of five 8-byte fields, in
//! order: slot, epoch start timestamp, epoch, leader schedule epoch, unix
//! timestamp. A buffer shorter than the fixed layout is rejected with a
//! recoverable error; decoding never panics.

use vstd::prelude::*;
use vstd::bytes::spec_u64_from_le_bytes;
use vstd::bytes::u64_from_le_bytes;
use vstd::slice::slice_subrange;

verus! {

/// Number of bytes in a well-formed clock payload: five 8-byte fields.
pub const CLOCK_PAYLOAD_LEN: usize = 40;

/// Immutable value decoded from a single clock-account notification.
#[derive(Clone, Copy, Debug, PartialEq, Eq, Structural)]
pub struct ClockSnapshot {
    /// Monotonically non-decreasing position of the remote ledger.
    pub slot: u64,
    /// Wall-clock time (seconds since the unix epoch) at the start of the
    /// current epoch.
    pub epoch_start_timestamp: i64,
    /// Current epoch index.
    pub epoch: u64,
    /// Epoch index for which the leader schedule is known.
    pub leader_schedule_epoch: u64,
    /// The remote network's current wall-clock estimate; the field the
    /// monitor republishes.
    pub unix_timestamp: i64,
}

/// Why a raw payload could not be decoded.
#[derive(Clone, Copy, Debug, PartialEq, Eq, Structural)]
pub enum DecodeError {
    /// Fewer bytes than the fixed layout requires.
    TooShort,
}

/// The signed 64-bit value whose two's-complement little-endian encoding is
/// the 8-byte sequence `s`.
pub open spec fn spec_i64_from_le_bytes(s: Seq<u8>) -> i64
    recommends
        s.len() == 8,
{
    let u = spec_u64_from_le_bytes(s);
    if u < 0x8000_0000_0000_0000 {
        u as i64
    } else {
        (u - 0x1_0000_0000_0000_0000) as i64
    }
}

/// The snapshot encoded in the first `CLOCK_PAYLOAD_LEN` bytes of `b`.
pub open spec fn spec_decode_clock(b: Seq<u8>) -> ClockSnapshot
    recommends
        b.len() >= CLOCK_PAYLOAD_LEN,
{
    ClockSnapshot {
        slot: spec_u64_from_le_bytes(b.subrange(0, 8)),
        epoch_start_timestamp: spec_i64_from_le_bytes(b.subrange(8, 16)),
        epoch: spec_u64_from_le_bytes(b.subrange(16, 24)),
        leader_schedule_epoch: spec_u64_from_le_bytes(b.subrange(24, 32)),
        unix_timestamp: spec_i64_from_le_bytes(b.subrange(32, 40)),
    }
}

/// Reads the unsigned little-endian 64-bit field at `offset`.
fn read_u64_field(data: &Vec<u8>, offset: usize) -> (x: u64)
    requires
        offset + 8 <= data@.len(),
    ensures
        x == spec_u64_from_le_bytes(data@.subrange(offset as int, offset + 8)),
{
    proof {
        vstd::std_specs::vec::axiom_spec_len(data);
        assert(data@.len() <= usize::MAX);
    }
    let field: &[u8] = slice_subrange(data.as_slice(), offset, offset + 8);
    u64_from_le_bytes(field)
}

/// Reads the signed little-endian 64-bit field at `offset`, interpreting the
/// bytes as two's complement.
fn read_i64_field(data: &Vec<u8>, offset: usize) -> (x: i64)
    requires
        offset + 8 <= data@.len(),
    ensures
        x == spec_i64_from_le_bytes(data@.subrange(offset as int, offset + 8)),
{
    let u = read_u64_field(data, offset);
    if u < 0x8000_0000_0000_0000 {
        u as i64
    } else {
        let distance_to_max: u64 = 0xFFFF_FFFF_FFFF_FFFF - u;
        -(distance_to_max as i64) - 1
    }
}

/// Decodes a raw notification payload into a `ClockSnapshot`.
///
/// Succeeds exactly when at least `CLOCK_PAYLOAD_LEN` bytes are available;
/// any trailing bytes are ignored. A shorter buffer yields `DecodeError`
/// rather than a fault.
pub fn deserialize_clock(data: &Vec<u8>) -> (r: Result<ClockSnapshot, DecodeError>)
    ensures
        data@.len() >= CLOCK_PAYLOAD_LEN ==> r == Ok::<ClockSnapshot, DecodeError>(
            spec_decode_clock(data@),
        ),
        data@.len() < CLOCK_PAYLOAD_LEN ==> r == Err::<ClockSnapshot, DecodeError>(
            DecodeError::TooShort,
        ),
{
    if data.len() < CLOCK_PAYLOAD_LEN {
        return Err(DecodeError::TooShort);
    }
    Ok(
        ClockSnapshot {
            slot: read_u64_field(data, 0),
            epoch_start_timestamp: read_i64_field(data, 8),
            epoch: read_u64_field(data, 16),
            leader_schedule_epoch: read_u64_field(data, 24),
            unix_timestamp: read_i64_field(data, 32),
        },
    )
}

} // verus!
