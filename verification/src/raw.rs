//! Bounds-checked little-endian field extraction from raw byte buffers.

use vstd::bytes::spec_u32_from_le_bytes;
use vstd::bytes::spec_u64_from_le_bytes;
use vstd::bytes::u32_from_le_bytes;
use vstd::bytes::u64_from_le_bytes;
use vstd::prelude::*;

use crate::error::BundleDataErr;

verus! {

/// The `u32` stored little-endian at byte offset `off` of `raw`.
pub open spec fn spec_u32_at(raw: Seq<u8>, off: int) -> u32
    recommends
        0 <= off,
        off + 4 <= raw.len(),
{
    spec_u32_from_le_bytes(raw.subrange(off, off + 4))
}

/// The `u64` stored little-endian at byte offset `off` of `raw`.
pub open spec fn spec_u64_at(raw: Seq<u8>, off: int) -> u64
    recommends
        0 <= off,
        off + 8 <= raw.len(),
{
    spec_u64_from_le_bytes(raw.subrange(off, off + 8))
}

/// Reads a little-endian `u32` from a slice that must be exactly four bytes.
pub fn to_u32(x: &[u8]) -> (r: Result<u32, BundleDataErr>)
    ensures
        r is Ok <==> x@.len() == 4,
        r matches Ok(v) ==> v == spec_u32_from_le_bytes(x@),
        r matches Err(e) ==> e == BundleDataErr::DataCorrupted,
{
    if x.len() == 4 {
        Ok(u32_from_le_bytes(x))
    } else {
        Err(BundleDataErr::DataCorrupted)
    }
}

/// Reads a little-endian `u64` from a slice that must be exactly eight bytes.
pub fn to_u64(x: &[u8]) -> (r: Result<u64, BundleDataErr>)
    ensures
        r is Ok <==> x@.len() == 8,
        r matches Ok(v) ==> v == spec_u64_from_le_bytes(x@),
        r matches Err(e) ==> e == BundleDataErr::DataCorrupted,
{
    if x.len() == 8 {
        Ok(u64_from_le_bytes(x))
    } else {
        Err(BundleDataErr::DataCorrupted)
    }
}

/// Reads the `u32` at offset `off` of `raw`, rejecting an out-of-bounds read.
pub fn read_u32(raw: &[u8], off: usize) -> (r: Result<u32, BundleDataErr>)
    ensures
        r is Ok <==> off + 4 <= raw@.len(),
        r matches Ok(v) ==> v == spec_u32_at(raw@, off as int),
        r matches Err(e) ==> e == BundleDataErr::DataCorrupted,
{
    if raw.len() >= 4 && off <= raw.len() - 4 {
        to_u32(&raw[off..off + 4])
    } else {
        Err(BundleDataErr::DataCorrupted)
    }
}

/// Reads the `u64` at offset `off` of `raw`, rejecting an out-of-bounds read.
pub fn read_u64(raw: &[u8], off: usize) -> (r: Result<u64, BundleDataErr>)
    ensures
        r is Ok <==> off + 8 <= raw@.len(),
        r matches Ok(v) ==> v == spec_u64_at(raw@, off as int),
        r matches Err(e) ==> e == BundleDataErr::DataCorrupted,
{
    if raw.len() >= 8 && off <= raw.len() - 8 {
        to_u64(&raw[off..off + 8])
    } else {
        Err(BundleDataErr::DataCorrupted)
    }
}

} // verus!
