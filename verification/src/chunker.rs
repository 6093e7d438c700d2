//! Partitioning a byte buffer into fixed-size address-tagged chunks.

use vstd::prelude::*;
use crate::hex::{spec_hex8, format_hex8};

verus! {

/// The number of chunks that a buffer of `len` bytes partitions into:
/// `len / 16`, rounded up. Each chunk covers 16 bytes, except possibly the
/// last chunk of a buffer.
pub open spec fn spec_num_chunks(len: nat) -> nat {
    (len + 15) / 16
}

/// The bytes of the chunk with index `i`: offsets `[16 * i, 16 * i + 16)`
/// of the buffer, clamped to the buffer's length.
pub open spec fn spec_chunk(data: Seq<u8>, i: int) -> Seq<u8> {
    data.subrange(16 * i, if 16 * i + 16 <= data.len() { 16 * i + 16 } else { data.len() as int })
}

/// The first `n` chunks of the buffer, concatenated in address order.
pub open spec fn spec_concat_chunks(data: Seq<u8>, n: int) -> Seq<u8>
    decreases n,
{
    if n <= 0 {
        Seq::empty()
    } else {
        spec_concat_chunks(data, n - 1) + spec_chunk(data, n - 1)
    }
}

proof fn lemma_concat_chunks_prefix(data: Seq<u8>, n: int)
    requires
        0 <= n <= spec_num_chunks(data.len()),
    ensures
        spec_concat_chunks(data, n) =~= data.subrange(
            0,
            if 16 * n <= data.len() { 16 * n } else { data.len() as int },
        ),
    decreases n,
{
    if n > 0 {
        lemma_concat_chunks_prefix(data, n - 1);
    }
}

/// Concatenating all chunks in address order reconstructs the buffer exactly.
pub proof fn lemma_chunks_reconstruct(data: Seq<u8>)
    ensures
        spec_concat_chunks(data, spec_num_chunks(data.len()) as int) =~= data,
{
    lemma_concat_chunks_prefix(data, spec_num_chunks(data.len()) as int);
}

/// Distinct chunks of one buffer carry distinct address keys: the mapping
/// from address to chunk has no duplicate keys.
pub proof fn lemma_chunk_addresses_unique(i: int, j: int)
    requires
        0 <= i,
        0 <= j,
        i != j,
        16 * i < 0x1_0000_0000,
        16 * j < 0x1_0000_0000,
    ensures
        spec_hex8((16 * i) as u32) != spec_hex8((16 * j) as u32),
{
    if spec_hex8((16 * i) as u32) == spec_hex8((16 * j) as u32) {
        crate::hex::lemma_hex8_injective((16 * i) as u32, (16 * j) as u32);
    }
}

/// Splits a buffer into 16-byte chunks, each paired with the 8-hex-digit
/// address of its first byte. The last chunk is shorter when the buffer's
/// length is not a multiple of 16; an empty buffer yields no chunks.
pub fn binary_data_to_chunks(binary_data: &[u8]) -> (chunks: Vec<(String, Vec<u8>)>)
    requires
        binary_data@.len() <= 0x1_0000_0000,
    ensures
        chunks@.len() == spec_num_chunks(binary_data@.len()),
        forall|i: int| 0 <= i < chunks@.len() ==> (#[trigger] chunks@[i]).0@ == spec_hex8(
            (16 * i) as u32,
        ),
        forall|i: int| 0 <= i < chunks@.len() ==> (#[trigger] chunks@[i]).1@ == spec_chunk(
            binary_data@,
            i,
        ),
{
    let len = binary_data.len();
    let num_chunks = len / 16 + if len % 16 == 0 {
        0
    } else {
        1
    };
    let mut chunks: Vec<(String, Vec<u8>)> = Vec::new();
    let mut i: usize = 0;
    while i < num_chunks
        invariant
            binary_data@.len() == len <= 0x1_0000_0000,
            num_chunks == spec_num_chunks(len as nat),
            i <= num_chunks,
            chunks@.len() == i,
            forall|k: int| 0 <= k < i ==> (#[trigger] chunks@[k]).0@ == spec_hex8((16 * k) as u32),
            forall|k: int| 0 <= k < i ==> (#[trigger] chunks@[k]).1@ == spec_chunk(binary_data@, k),
        decreases num_chunks - i,
    {
        let offset = 16 * i;
        let end = if len - offset >= 16 {
            offset + 16
        } else {
            len
        };
        let address = format_hex8(offset as u32);
        let chunk = vstd::slice::slice_to_vec(vstd::slice::slice_subrange(
            binary_data,
            offset,
            end,
        ));
        chunks.push((address, chunk));
        i = i + 1;
    }
    chunks
}

} // verus!
