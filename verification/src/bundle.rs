//! The bundle decoder: slices the compressed payload into blocks and drives
//! each block through the external decompression capability.

use vstd::prelude::*;
use vstd::slice::slice_to_vec;

use crate::error::BundleDataErr;
use crate::header::header_format_ok;
use crate::header::header_matches;
use crate::header::spec_block_count;
use crate::header::BundleHeader;
use crate::raw::spec_u32_at;

verus! {

/// The external decompression codec, reduced to the one call the decoder
/// needs: reverse one compressed block, telling the codec how many plaintext
/// bytes it must produce. `None` stands for any failure. Nothing is assumed
/// of an implementation; the decoder validates whatever comes back.
pub trait DecompressCapability {
    fn decompress(&self, compressed: &[u8], expected_len: usize) -> Option<Vec<u8>>;
}

/// A decoded bundle: its header and one decompressed block per entry of the
/// header's block-size table, in table order.
pub struct Bundle {
    pub header: BundleHeader,
    pub blocks: Vec<Vec<u8>>,
}

/// Plaintext bytes still owed after the first `i` blocks: each block consumes
/// `min(remaining, gran)` of the total.
pub open spec fn remaining_after(total: int, gran: int, i: int) -> int
    decreases i,
{
    if i <= 0 {
        total
    } else {
        let r = remaining_after(total, gran, i - 1);
        r - vstd::math::min(r, gran)
    }
}

/// The plaintext length owed by block `i`: whatever remains, capped at the
/// block granularity.
pub open spec fn spec_block_len(total: int, gran: int, i: int) -> int {
    vstd::math::min(remaining_after(total, gran, i), gran)
}

/// Sum of the first `i` entries of the block-size table.
pub open spec fn sizes_prefix_sum(sizes: Seq<u32>, i: int) -> int
    decreases i,
{
    if i <= 0 {
        0
    } else {
        sizes_prefix_sum(sizes, i - 1) + sizes[i - 1]
    }
}

/// Byte offset of block `i`'s compressed data: the payload begins right after
/// the block-size table, and earlier blocks occupy their table entries' bytes.
pub open spec fn block_start(count: int, sizes: Seq<u32>, i: int) -> int {
    60 + 4 * count + sizes_prefix_sum(sizes, i)
}

/// True when every compressed block of the table lies inside `raw`: the end
/// of the last block, which is the furthest byte any block reaches, does.
pub open spec fn payload_in_bounds(raw: Seq<u8>, sizes: Seq<u32>) -> bool {
    block_start(sizes.len() as int, sizes, sizes.len() as int) <= raw.len()
}

/// The block-size table as declared by a raw bundle's header region.
pub open spec fn spec_block_sizes(raw: Seq<u8>) -> Seq<u32> {
    Seq::new(spec_block_count(raw) as nat, |i: int| spec_u32_at(raw, 60 + 4 * i))
}

/// True when a raw bundle's header decodes and all its compressed blocks lie
/// inside the buffer: exactly the inputs on which no read runs out of bounds.
pub open spec fn bundle_bounds_ok(raw: Seq<u8>) -> bool {
    header_format_ok(raw) && payload_in_bounds(raw, spec_block_sizes(raw))
}

/// Total number of bytes held by a sequence of blocks.
pub open spec fn total_len(blocks: Seq<Vec<u8>>) -> int
    decreases blocks.len(),
{
    if blocks.len() == 0 {
        0
    } else {
        total_len(blocks.drop_last()) + blocks.last()@.len()
    }
}

/// What `Bundle::try_new` establishes of a decoded bundle: one block per
/// table entry, block `i` holding exactly the plaintext length owed by
/// position `i`, and the blocks together holding every byte the header's
/// `uncompressed_size` owes (less what the table could not cover).
pub open spec fn decoded_bundle(b: Bundle) -> bool {
    let total = b.header.uncompressed_size as int;
    let gran = b.header.block_granularity as int;
    let n = b.header.block_sizes@.len() as int;
    &&& b.blocks@.len() == n
    &&& forall|i: int| 0 <= i < n ==> #[trigger] b.blocks@[i]@.len() == spec_block_len(total, gran, i)
    &&& total_len(b.blocks@) == total - remaining_after(total, gran, n)
}

proof fn lemma_prefix_sum_mono(sizes: Seq<u32>, i: int, j: int)
    requires
        0 <= i <= j <= sizes.len(),
    ensures
        sizes_prefix_sum(sizes, i) <= sizes_prefix_sum(sizes, j),
    decreases j - i,
{
    if i < j {
        lemma_prefix_sum_mono(sizes, i, j - 1);
    }
}

/// Cuts the compressed payload of `raw_data` into one owned chunk per entry
/// of the header's block-size table, walking the table in index order. Chunk
/// `i` is exactly the `block_sizes[i]` bytes at block `i`'s payload offset.
pub fn block_slices(raw_data: &[u8], header: &BundleHeader) -> (r: Result<
    Vec<Vec<u8>>,
    BundleDataErr,
>)
    requires
        header.block_sizes@.len() == header.block_count,
        raw_data@.len() >= 60 + 4 * (header.block_count as int),
    ensures
        r is Ok <==> payload_in_bounds(raw_data@, header.block_sizes@),
        r matches Ok(s) ==> {
            let count = header.block_sizes@.len() as int;
            &&& s@.len() == count
            &&& forall|i: int|
                0 <= i < count ==> #[trigger] s@[i]@ == raw_data@.subrange(
                    block_start(count, header.block_sizes@, i),
                    block_start(count, header.block_sizes@, i) + header.block_sizes@[i],
                )
        },
        r matches Err(e) ==> e == BundleDataErr::DataCorrupted,
{
    let n: usize = header.block_sizes.len();
    let mut out: Vec<Vec<u8>> = Vec::new();
    let raw_len: usize = raw_data.len();
    let mut cursor: usize = 60 + 4 * n;
    let mut i: usize = 0;
    while i < n
        invariant
            n == header.block_sizes@.len(),
            i <= n,
            out@.len() == i,
            raw_len == raw_data@.len(),
            cursor == block_start(n as int, header.block_sizes@, i as int),
            cursor <= raw_len,
            forall|j: int|
                0 <= j < i ==> #[trigger] out@[j]@ == raw_data@.subrange(
                    block_start(n as int, header.block_sizes@, j),
                    block_start(n as int, header.block_sizes@, j) + header.block_sizes@[j],
                ),
        decreases n - i,
    {
        let size: usize = header.block_sizes[i] as usize;
        if size > raw_len - cursor {
            proof {
                lemma_prefix_sum_mono(header.block_sizes@, i + 1, n as int);
            }
            return Err(BundleDataErr::DataCorrupted);
        }
        let chunk = slice_to_vec(&raw_data[cursor..cursor + size]);
        out.push(chunk);
        cursor = cursor + size;
        i = i + 1;
    }
    Ok(out)
}

/// Judges one codec result: accepts exactly a successful decompression whose
/// plaintext has the length this block owes, and reports everything else as
/// `DecompressionFailed`.
pub fn check_block(data: Option<Vec<u8>>, expected_len: usize) -> (r: Result<
    Vec<u8>,
    BundleDataErr,
>)
    ensures
        r is Ok <==> (data matches Some(d) && d@.len() == expected_len),
        r matches Ok(v) ==> data matches Some(d) && v == d,
        r matches Err(e) ==> e == BundleDataErr::DecompressionFailed,
{
    match data {
        Some(d) => {
            if d.len() == expected_len {
                Ok(d)
            } else {
                Err(BundleDataErr::DecompressionFailed)
            }
        },
        None => Err(BundleDataErr::DecompressionFailed),
    }
}

impl Bundle {
    /// Decodes a whole bundle: header first, then every compressed block in
    /// table order through the codec, each checked against the plaintext
    /// length its position owes. `DataCorrupted` reports exactly the buffers
    /// whose header or payload reads would run out of bounds;
    /// `DecompressionFailed` only ever reports the codec's own refusal, so an
    /// in-bounds buffer with an empty block table — where the codec never
    /// gets a say — is owed a successful, blockless decode.
    pub fn try_new<C: DecompressCapability>(raw_data: &[u8], codec: &C) -> (r: Result<
        Bundle,
        BundleDataErr,
    >)
        ensures
            r matches Ok(b) ==> {
                &&& bundle_bounds_ok(raw_data@)
                &&& header_matches(raw_data@, b.header)
                &&& decoded_bundle(b)
            },
            r == Err::<Bundle, BundleDataErr>(BundleDataErr::DataCorrupted) <==> !bundle_bounds_ok(
                raw_data@,
            ),
            r == Err::<Bundle, BundleDataErr>(BundleDataErr::DecompressionFailed)
                ==> bundle_bounds_ok(raw_data@) && spec_block_count(raw_data@) > 0,
            bundle_bounds_ok(raw_data@) && spec_block_count(raw_data@) == 0 ==> r is Ok,
    {
        let header = match BundleHeader::decode(raw_data) {
            Ok(h) => h,
            Err(e) => {
                return Err(e);
            },
        };
        proof {
            assert(header.block_sizes@ =~= spec_block_sizes(raw_data@));
        }
        let slices = match block_slices(raw_data, &header) {
            Ok(s) => s,
            Err(e) => {
                return Err(e);
            },
        };
        let ghost total = header.uncompressed_size as int;
        let ghost gran_g = header.block_granularity as int;
        let n: usize = slices.len();
        let gran: usize = header.block_granularity as usize;
        let mut data_left: usize = header.uncompressed_size as usize;
        let mut blocks: Vec<Vec<u8>> = Vec::new();
        let mut i: usize = 0;
        while i < n
            invariant
                i <= n,
                n == header.block_sizes@.len(),
                n == slices@.len(),
                n == spec_block_count(raw_data@),
                bundle_bounds_ok(raw_data@),
                gran == gran_g,
                total == header.uncompressed_size as int,
                blocks@.len() == i,
                data_left == remaining_after(total, gran_g, i as int),
                forall|j: int|
                    0 <= j < i ==> #[trigger] blocks@[j]@.len() == spec_block_len(
                        total,
                        gran_g,
                        j,
                    ),
                total_len(blocks@) == total - remaining_after(total, gran_g, i as int),
            decreases n - i,
        {
            let expected: usize = if data_left < gran {
                data_left
            } else {
                gran
            };
            proof {
                assert(remaining_after(total, gran_g, i + 1) == data_left - expected);
            }
            let compressed: &Vec<u8> = &slices[i];
            let data = codec.decompress(compressed.as_slice(), expected);
            let block = match check_block(data, expected) {
                Ok(b) => b,
                Err(e) => {
                    return Err(e);
                },
            };
            let ghost blocks_before = blocks@;
            blocks.push(block);
            proof {
                assert(blocks@.drop_last() =~= blocks_before);
            }
            data_left = data_left - expected;
            i = i + 1;
        }
        Ok(Bundle { header, blocks })
    }
}

/// The total block length is exactly the length of the blocks' concatenation.
pub proof fn lemma_total_len_is_concat_len(blocks: Seq<Vec<u8>>)
    ensures
        blocks.map_values(|v: Vec<u8>| v@).flatten().len() == total_len(blocks),
    decreases blocks.len(),
{
    let mapped = blocks.map_values(|v: Vec<u8>| v@);
    mapped.lemma_flatten_and_flatten_alt_are_equivalent();
    if blocks.len() > 0 {
        lemma_total_len_is_concat_len(blocks.drop_last());
        assert(mapped.drop_last() =~= blocks.drop_last().map_values(|v: Vec<u8>| v@));
        mapped.drop_last().lemma_flatten_and_flatten_alt_are_equivalent();
        assert(mapped.flatten_alt() == mapped.drop_last().flatten_alt() + mapped.last());
    }
}

/// Round-trip size law: the blocks of a decoded bundle concatenate to
/// exactly `uncompressed_size` bytes, whenever the header satisfies its own
/// invariant — the declared size is what `block_count` blocks of
/// `min(remaining, granularity)` bytes each consume, so nothing is left
/// owed after the last block. By `lemma_remaining_closed_form`, any table
/// with `uncompressed_size <= block_granularity * block_count` satisfies it.
pub proof fn lemma_round_trip_size(b: Bundle)
    requires
        decoded_bundle(b),
        remaining_after(
            b.header.uncompressed_size as int,
            b.header.block_granularity as int,
            b.header.block_sizes@.len() as int,
        ) == 0,
    ensures
        total_len(b.blocks@) == b.header.uncompressed_size as int,
        b.blocks@.map_values(|v: Vec<u8>| v@).flatten().len() == b.header.uncompressed_size as int,
{
    lemma_total_len_is_concat_len(b.blocks@);
}

/// Closed form for the plaintext still owed after `i` blocks: the total less
/// `i` full granules, floored at zero.
pub proof fn lemma_remaining_closed_form(total: int, gran: int, i: int)
    requires
        0 <= total,
        0 <= gran,
        0 <= i,
    ensures
        remaining_after(total, gran, i) == vstd::math::max(total - gran * i, 0),
    decreases i,
{
    if i == 0 {
        assert(gran * 0 == 0) by (nonlinear_arith);
    } else {
        lemma_remaining_closed_form(total, gran, i - 1);
        assert(gran * i == gran * (i - 1) + gran) by (nonlinear_arith);
    }
}

} // verus!
