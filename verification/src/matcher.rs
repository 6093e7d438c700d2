//! Aligned chunk-pair matching of two byte buffers against a target byte pair.

use vstd::prelude::*;
use vstd::seq_lib::lemma_seq_contains_after_push;
use crate::chunker::{spec_num_chunks, spec_chunk, binary_data_to_chunks};
use crate::hex::{spec_hex8, spec_hex_dump, hex_dump};

verus! {

/// Two aligned bytes carry the target pair: in either order, one byte is
/// `v0` and the other is `v1`.
pub open spec fn spec_pair_match(byte0: u8, byte1: u8, v0: u8, v1: u8) -> bool {
    (byte0 == v0 && byte1 == v1) || (byte0 == v1 && byte1 == v0)
}

/// A chunk pair matches when some position within both chunks carries the
/// target pair. Positions past the end of the shorter chunk never match.
pub open spec fn spec_chunks_match(c0: Seq<u8>, c1: Seq<u8>, v0: u8, v1: u8) -> bool {
    exists|i: int|
        0 <= i < c0.len() && i < c1.len() && #[trigger] spec_pair_match(c0[i], c1[i], v0, v1)
}

/// The match predicate is symmetric in the two target values.
pub proof fn lemma_match_symmetry(c0: Seq<u8>, c1: Seq<u8>, v0: u8, v1: u8)
    ensures
        spec_chunks_match(c0, c1, v0, v1) == spec_chunks_match(c0, c1, v1, v0),
{
    if spec_chunks_match(c0, c1, v0, v1) {
        let i = choose|i: int|
            0 <= i < c0.len() && i < c1.len() && #[trigger] spec_pair_match(c0[i], c1[i], v0, v1);
        assert(spec_pair_match(c0[i], c1[i], v1, v0));
    }
    if spec_chunks_match(c0, c1, v1, v0) {
        let i = choose|i: int|
            0 <= i < c0.len() && i < c1.len() && #[trigger] spec_pair_match(c0[i], c1[i], v1, v0);
        assert(spec_pair_match(c0[i], c1[i], v0, v1));
    }
}

/// Tests whether the two chunks carry the target pair at some shared
/// position, in either order.
pub fn compare_chunks(chunk0: &[u8], chunk1: &[u8], target_val1: u8, target_val2: u8) -> (r: bool)
    ensures
        r == spec_chunks_match(chunk0@, chunk1@, target_val1, target_val2),
{
    let shared = if chunk0.len() < chunk1.len() {
        chunk0.len()
    } else {
        chunk1.len()
    };
    let mut i: usize = 0;
    while i < shared
        invariant
            shared <= chunk0@.len(),
            shared <= chunk1@.len(),
            shared == if chunk0@.len() < chunk1@.len() {
                chunk0@.len()
            } else {
                chunk1@.len()
            },
            i <= shared,
            forall|k: int| 0 <= k < i ==> !spec_pair_match(
                chunk0@[k],
                chunk1@[k],
                target_val1,
                target_val2,
            ),
        decreases shared - i,
    {
        let byte0 = *vstd::slice::slice_index_get(chunk0, i);
        let byte1 = *vstd::slice::slice_index_get(chunk1, i);
        if (byte0 == target_val1 && byte1 == target_val2) || (byte0 == target_val2 && byte1
            == target_val1) {
            proof {
                assert(spec_pair_match(chunk0@[i as int], chunk1@[i as int], target_val1,
                    target_val2));
            }
            return true;
        }
        i = i + 1;
    }
    false
}

/// One reported aligned-chunk pair: the shared 8-hex-digit address and the
/// hex dumps of the chunk from each buffer.
#[derive(Debug)]
pub struct MatchInfo {
    pub address: String,
    pub data0: String,
    pub data1: String,
}

/// The number of chunk addresses present in both buffers: the smaller of
/// the two chunk counts, since chunk addresses are sequential from zero.
pub open spec fn spec_shared_chunks(len0: nat, len1: nat) -> int {
    if spec_num_chunks(len0) < spec_num_chunks(len1) {
        spec_num_chunks(len0) as int
    } else {
        spec_num_chunks(len1) as int
    }
}

/// The chunk indices below `n` whose aligned chunk pairs match the target
/// pair, in ascending order.
pub open spec fn spec_match_indices(d0: Seq<u8>, d1: Seq<u8>, v0: u8, v1: u8, n: int) -> Seq<int>
    decreases n,
{
    if n <= 0 {
        Seq::empty()
    } else {
        let prefix = spec_match_indices(d0, d1, v0, v1, n - 1);
        if spec_chunks_match(spec_chunk(d0, n - 1), spec_chunk(d1, n - 1), v0, v1) {
            prefix.push(n - 1)
        } else {
            prefix
        }
    }
}

/// The matching indices are exactly the chunk indices below `n` whose
/// aligned chunk pairs match, listed in strictly ascending order.
pub proof fn lemma_match_indices_characterization(
    d0: Seq<u8>,
    d1: Seq<u8>,
    v0: u8,
    v1: u8,
    n: int,
)
    requires
        n >= 0,
    ensures
        forall|k: int|
            0 <= k < spec_match_indices(d0, d1, v0, v1, n).len() ==> 0 <= #[trigger] spec_match_indices(
                d0,
                d1,
                v0,
                v1,
                n,
            )[k] < n,
        forall|k1: int, k2: int|
            0 <= k1 < k2 < spec_match_indices(d0, d1, v0, v1, n).len() ==> spec_match_indices(
                d0,
                d1,
                v0,
                v1,
                n,
            )[k1] < spec_match_indices(d0, d1, v0, v1, n)[k2],
        forall|i: int|
            #[trigger] spec_match_indices(d0, d1, v0, v1, n).contains(i) <==> (0 <= i < n
                && spec_chunks_match(spec_chunk(d0, i), spec_chunk(d1, i), v0, v1)),
    decreases n,
{
    broadcast use lemma_seq_contains_after_push;

    if n > 0 {
        lemma_match_indices_characterization(d0, d1, v0, v1, n - 1);
        let prefix = spec_match_indices(d0, d1, v0, v1, n - 1);
        let full = spec_match_indices(d0, d1, v0, v1, n);
        if spec_chunks_match(spec_chunk(d0, n - 1), spec_chunk(d1, n - 1), v0, v1) {
            assert(full == prefix.push(n - 1));
            assert(forall|k: int| 0 <= k < prefix.len() ==> full[k] == prefix[k]);
            assert(forall|i: int| prefix.contains(i) ==> 0 <= i < n - 1);
        }
    }
}

/// A chunk pair that matches at no shared position is never reported:
/// its index is absent from the matching indices.
pub proof fn lemma_no_false_match(d0: Seq<u8>, d1: Seq<u8>, v0: u8, v1: u8, n: int, i: int)
    requires
        n >= 0,
        !spec_chunks_match(spec_chunk(d0, i), spec_chunk(d1, i), v0, v1),
    ensures
        !spec_match_indices(d0, d1, v0, v1, n).contains(i),
{
    lemma_match_indices_characterization(d0, d1, v0, v1, n);
}

/// Only addresses present in both buffers' chunk indexes are ever reported:
/// every matching index lies below both chunk counts.
pub proof fn lemma_intersection_only(d0: Seq<u8>, d1: Seq<u8>, v0: u8, v1: u8)
    ensures
        forall|k: int|
            0 <= k < spec_match_indices(
                d0,
                d1,
                v0,
                v1,
                spec_shared_chunks(d0.len(), d1.len()),
            ).len() ==> {
                let i = #[trigger] spec_match_indices(
                    d0,
                    d1,
                    v0,
                    v1,
                    spec_shared_chunks(d0.len(), d1.len()),
                )[k];
                0 <= i < spec_num_chunks(d0.len()) && 0 <= i < spec_num_chunks(d1.len())
            },
{
    lemma_match_indices_characterization(
        d0,
        d1,
        v0,
        v1,
        spec_shared_chunks(d0.len(), d1.len()),
    );
}

/// Compares two buffers chunk by chunk at equal addresses and reports, in
/// ascending address order, every aligned chunk pair carrying the target
/// pair at some shared position, with the address and both hex dumps.
pub fn compare_files(data0: &[u8], data1: &[u8], target_val1: u8, target_val2: u8) -> (matches_info:
    Vec<MatchInfo>)
    requires
        data0@.len() <= 0x1_0000_0000,
        data1@.len() <= 0x1_0000_0000,
    ensures
        matches_info@.len() == spec_match_indices(
            data0@,
            data1@,
            target_val1,
            target_val2,
            spec_shared_chunks(data0@.len(), data1@.len()),
        ).len(),
        forall|j: int|
            0 <= j < matches_info@.len() ==> {
                let i = spec_match_indices(
                    data0@,
                    data1@,
                    target_val1,
                    target_val2,
                    spec_shared_chunks(data0@.len(), data1@.len()),
                )[j];
                (#[trigger] matches_info@[j]).address@ == spec_hex8((16 * i) as u32)
                    && matches_info@[j].data0@ == spec_hex_dump(spec_chunk(data0@, i))
                    && matches_info@[j].data1@ == spec_hex_dump(spec_chunk(data1@, i))
            },
{
    let chunks0 = binary_data_to_chunks(data0);
    let chunks1 = binary_data_to_chunks(data1);
    let shared = if chunks0.len() < chunks1.len() {
        chunks0.len()
    } else {
        chunks1.len()
    };
    let mut matches_info: Vec<MatchInfo> = Vec::new();
    let mut i: usize = 0;
    while i < shared
        invariant
            shared == spec_shared_chunks(data0@.len(), data1@.len()),
            shared <= chunks0@.len(),
            shared <= chunks1@.len(),
            i <= shared,
            forall|k: int| 0 <= k < chunks0@.len() ==> (#[trigger] chunks0@[k]).0@ == spec_hex8(
                (16 * k) as u32,
            ),
            forall|k: int| 0 <= k < chunks0@.len() ==> (#[trigger] chunks0@[k]).1@ == spec_chunk(
                data0@,
                k,
            ),
            forall|k: int| 0 <= k < chunks1@.len() ==> (#[trigger] chunks1@[k]).1@ == spec_chunk(
                data1@,
                k,
            ),
            matches_info@.len() == spec_match_indices(
                data0@,
                data1@,
                target_val1,
                target_val2,
                i as int,
            ).len(),
            forall|j: int|
                0 <= j < matches_info@.len() ==> {
                    let idx = spec_match_indices(
                        data0@,
                        data1@,
                        target_val1,
                        target_val2,
                        i as int,
                    )[j];
                    (#[trigger] matches_info@[j]).address@ == spec_hex8((16 * idx) as u32)
                        && matches_info@[j].data0@ == spec_hex_dump(spec_chunk(data0@, idx))
                        && matches_info@[j].data1@ == spec_hex_dump(spec_chunk(data1@, idx))
                },
        decreases shared - i,
    {
        let ghost prev = spec_match_indices(data0@, data1@, target_val1, target_val2, i as int);
        let chunk0 = &chunks0[i].1;
        let chunk1 = &chunks1[i].1;
        if compare_chunks(chunk0.as_slice(), chunk1.as_slice(), target_val1, target_val2) {
            let record = MatchInfo {
                address: chunks0[i].0.clone(),
                data0: hex_dump(chunk0.as_slice()),
                data1: hex_dump(chunk1.as_slice()),
            };
            matches_info.push(record);
            proof {
                let cur = spec_match_indices(
                    data0@,
                    data1@,
                    target_val1,
                    target_val2,
                    i as int + 1,
                );
                assert(cur == prev.push(i as int));
                assert(forall|j: int| 0 <= j < prev.len() ==> cur[j] == prev[j]);
            }
        }
        i = i + 1;
    }
    matches_info
}

/// Keeps only the low 8 bits of a user-supplied target value: values above
/// 255 are truncated, not rejected, so a value behaves exactly as that value
/// reduced modulo 256.
pub fn truncate_to_byte(v: u32) -> (b: u8)
    ensures
        b as int == v as int % 256,
{
    (v % 256) as u8
}

} // verus!
