//! The fixed-layout bundle header and its decoder.

use vstd::prelude::*;

use crate::error::BundleDataErr;
use crate::raw::read_u32;
use crate::raw::read_u64;
use crate::raw::spec_u32_at;
use crate::raw::spec_u64_at;

verus! {

/// The fixed 60-byte preamble of a bundle, followed by `block_count`
/// little-endian `u32` entries starting at byte offset 60, one compressed
/// size per payload block.
#[derive(Debug)]
pub struct BundleHeader {
    pub uncompressed_size: u32,
    pub total_payload_size: u32,
    pub header_payload_size: u32,
    pub compressor_id: u32,
    pub unknown_flag: u32,
    pub uncompressed_size_u64: u64,
    pub total_payload_size_u64: u64,
    pub block_count: u32,
    pub block_granularity: u32,
    pub block_sizes: Vec<u32>,
}

/// The block count declared at byte offset 36 of a raw bundle.
pub open spec fn spec_block_count(raw: Seq<u8>) -> u32
    recommends
        raw.len() >= 40,
{
    spec_u32_at(raw, 36)
}

/// True when `raw` is long enough for the whole header region: 44 bytes for
/// the decoded fixed fields, the full 60-byte preamble, and the block-size
/// table occupying bytes `[60, 60 + 4 * block_count)`.
pub open spec fn header_format_ok(raw: Seq<u8>) -> bool {
    &&& raw.len() >= 44
    &&& raw.len() >= 60 + 4 * (spec_block_count(raw) as int)
}

/// Every field of `h` holds exactly the little-endian value stored at its
/// fixed offset in `raw`, and the table mirrors bytes `[60, 60 + 4 * count)`.
pub open spec fn header_matches(raw: Seq<u8>, h: BundleHeader) -> bool {
    &&& h.uncompressed_size == spec_u32_at(raw, 0)
    &&& h.total_payload_size == spec_u32_at(raw, 4)
    &&& h.header_payload_size == spec_u32_at(raw, 8)
    &&& h.compressor_id == spec_u32_at(raw, 12)
    &&& h.unknown_flag == spec_u32_at(raw, 16)
    &&& h.uncompressed_size_u64 == spec_u64_at(raw, 20)
    &&& h.total_payload_size_u64 == spec_u64_at(raw, 28)
    &&& h.block_count == spec_block_count(raw)
    &&& h.block_granularity == spec_u32_at(raw, 40)
    &&& h.block_sizes@.len() == spec_block_count(raw)
    &&& forall|i: int|
        0 <= i < h.block_sizes@.len() ==> h.block_sizes@[i] == spec_u32_at(raw, 60 + 4 * i)
}

impl BundleHeader {
    /// Decodes the fixed fields and the block-size table from the front of a
    /// raw bundle. Succeeds exactly when the buffer covers them all; any
    /// out-of-bounds read is reported as `DataCorrupted`, never a panic.
    pub fn decode(raw_data: &[u8]) -> (r: Result<BundleHeader, BundleDataErr>)
        ensures
            r is Ok <==> header_format_ok(raw_data@),
            r matches Ok(h) ==> header_matches(raw_data@, h),
            r matches Err(e) ==> e == BundleDataErr::DataCorrupted,
    {
        let uncompressed_size = read_u32(raw_data, 0)?;
        let total_payload_size = read_u32(raw_data, 4)?;
        let header_payload_size = read_u32(raw_data, 8)?;
        let compressor_id = read_u32(raw_data, 12)?;
        let unknown_flag = read_u32(raw_data, 16)?;
        let uncompressed_size_u64 = read_u64(raw_data, 20)?;
        let total_payload_size_u64 = read_u64(raw_data, 28)?;
        let block_count = read_u32(raw_data, 36)?;
        let block_granularity = read_u32(raw_data, 40)?;

        let raw_len = raw_data.len();
        let needed: u64 = 60 + 4 * (block_count as u64);
        if (raw_len as u64) < needed {
            return Err(BundleDataErr::DataCorrupted);
        }

        let mut block_sizes: Vec<u32> = Vec::new();
        let mut i: usize = 0;
        while i < block_count as usize
            invariant
                i <= block_count as usize,
                block_count == spec_block_count(raw_data@),
                raw_data@.len() <= usize::MAX,
                raw_data@.len() >= 60 + 4 * (block_count as int),
                block_sizes@.len() == i,
                forall|j: int|
                    0 <= j < i ==> block_sizes@[j] == spec_u32_at(raw_data@, 60 + 4 * j),
            decreases block_count as usize - i,
        {
            let entry = read_u32(raw_data, 60 + 4 * i)?;
            block_sizes.push(entry);
            i = i + 1;
        }

        Ok(BundleHeader {
            uncompressed_size,
            total_payload_size,
            header_payload_size,
            compressor_id,
            unknown_flag,
            uncompressed_size_u64,
            total_payload_size_u64,
            block_count,
            block_granularity,
            block_sizes,
        })
    }
}

/// Bounds law: a buffer shorter than the fixed 60-byte preamble never
/// decodes, whatever its bytes say.
pub proof fn lemma_short_buffer_rejected(raw: Seq<u8>)
    requires
        raw.len() < 60,
    ensures
        !header_format_ok(raw),
{
}

} // verus!
