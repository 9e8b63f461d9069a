//! Multi-source entropy and the chunk selection drawn from its combined hash.
use vstd::prelude::*;

use crate::bytes::{be64, from_be32, u32_from_be_at, u64_to_be_bytes};
use crate::crypto::{random_bytes, sha256, sha256_spec};
use crate::errors::{HashChainError, HashChainResult};
use crate::seqs::{
    append_bytes, contains_u32, copy_bytes, distinct_u32, lemma_exists_unused, lemma_u32_leq_total,
    sort_u32, sorted_u32, u32_leq, unused_value,
};
use crate::types::MultiSourceEntropy;

verus! {

/// The beacon bytes, or nothing.
pub open spec fn beacon_bytes(beacon: Option<Seq<u8>>) -> Seq<u8> {
    match beacon {
        Some(b) => b,
        None => Seq::empty(),
    }
}

/// The view of an optional byte vector.
pub open spec fn opt_view(v: Option<Vec<u8>>) -> Option<Seq<u8>> {
    match v {
        Some(b) => Some(b@),
        None => None,
    }
}

/// Collects entropy for a block: the block hash, the beacon if any, and 32
/// fresh random bytes, combined by SHA-256. The local bytes are random; the
/// combined hash is fixed by them and the other sources.
pub fn generate_multi_source_entropy(
    block_hash: Vec<u8>,
    beacon_data: Option<Vec<u8>>,
    timestamp_bits: u64,
) -> (r: HashChainResult<MultiSourceEntropy>)
    ensures
        r matches Ok(e) && {
            &&& e.blockchain_entropy@ == block_hash@
            &&& opt_view(e.beacon_entropy) == opt_view(beacon_data)
            &&& e.local_entropy@.len() == 32
            &&& e.timestamp_bits == timestamp_bits
            &&& e.combined_hash@ == sha256_spec(
                block_hash@ + beacon_bytes(opt_view(beacon_data)) + e.local_entropy@,
            )
        },
{
    let local_entropy = random_bytes(32);
    let mut combined = copy_bytes(block_hash.as_slice());
    match &beacon_data {
        Some(beacon) => append_bytes(&mut combined, beacon.as_slice()),
        None => {},
    }
    append_bytes(&mut combined, local_entropy.as_slice());
    let combined_hash = sha256(combined.as_slice());
    Ok(MultiSourceEntropy {
        blockchain_entropy: block_hash,
        beacon_entropy: beacon_data,
        local_entropy,
        timestamp_bits,
        combined_hash,
    })
}

/// The index proposed for draw `i`: the first four bytes of
/// `sha256(combined_hash || i)`, big-endian, modulo the chunk count.
pub open spec fn entropy_candidate(combined_hash: Seq<u8>, total: u32, i: u32) -> u32 {
    (from_be32(sha256_spec(combined_hash + be64(i as u64)).subrange(0, 4)) % total) as u32
}

/// The `s`-th slot probed from `start`, cyclically below `total`.
pub open spec fn probe_at(start: u32, total: u32, s: int) -> u32 {
    ((start + s) % (total as int)) as u32
}

/// Linear probing: the first of `start`, `start + 1`, ... (cyclically below
/// `total`), from offset `s` on, that `used` does not hold.
pub open spec fn probe_unused(used: Seq<u32>, start: u32, total: u32, s: nat) -> u32
    decreases total - s,
{
    if s >= total {
        start
    } else {
        let v = ((start + s) % (total as int)) as u32;
        if !used.contains(v) {
            v
        } else {
            probe_unused(used, start, total, s + 1)
        }
    }
}

/// The indices drawn in the first `k` draws, in draw order.
pub open spec fn entropy_draws(combined_hash: Seq<u8>, total: u32, k: nat) -> Seq<u32>
    decreases k,
{
    if k == 0 {
        Seq::empty()
    } else {
        let prev = entropy_draws(combined_hash, total, (k - 1) as nat);
        prev.push(probe_unused(prev, entropy_candidate(combined_hash, total, (k - 1) as u32), total, 0))
    }
}

/// The selection of `count` chunks from the combined entropy hash, sorted.
pub open spec fn entropy_selection(combined_hash: Seq<u8>, total: u32, count: u32) -> Seq<u32> {
    sorted_u32(entropy_draws(combined_hash, total, count as nat))
}

/// Every value below `total` is reached by probing from any start below it.
proof fn lemma_probe_reaches(start: u32, total: u32, v: int)
    requires
        start < total,
        0 <= v < total,
    ensures
        exists|s: int| 0 <= s < total && #[trigger] ((start + s) % (total as int)) == v,
{
    if v >= start {
        let s = v - start;
        assert((start + s) % (total as int) == v) by {
            vstd::arithmetic::div_mod::lemma_small_mod(v as nat, total as nat);
        }
    } else {
        let s = total - start + v;
        assert((start + s) % (total as int) == v) by {
            assert(start + s == total + v);
            vstd::arithmetic::div_mod::lemma_mod_add_multiples_vanish(v, total as int);
            vstd::arithmetic::div_mod::lemma_small_mod(v as nat, total as nat);
        }
    }
}

/// Probing finds an unused value below `total` when fewer than `total` are used.
proof fn lemma_probe(used: Seq<u32>, start: u32, total: u32, s: nat)
    requires
        start < total,
        used.len() < total,
        s <= total,
        forall|t: int| 0 <= t < s ==> used.contains(#[trigger] probe_at(start, total, t)),
    ensures
        probe_unused(used, start, total, s) < total,
        !used.contains(probe_unused(used, start, total, s)),
    decreases total - s,
{
    if s >= total {
        lemma_exists_unused(used, total as int);
        let v = choose|c: int| 0 <= c < total && #[trigger] unused_value(used, c);
        lemma_probe_reaches(start, total, v);
        let t = choose|t: int| 0 <= t < total && #[trigger] ((start + t) % (total as int)) == v;
        assert(used.contains(probe_at(start, total, t)));
        assert(false);
    } else {
        let v = ((start + s) % (total as int)) as u32;
        if used.contains(v) {
            lemma_probe(used, start, total, s + 1);
        }
    }
}

/// The draws are distinct and below the chunk count.
pub proof fn lemma_entropy_draws(combined_hash: Seq<u8>, total: u32, k: nat)
    requires
        k <= total,
    ensures
        entropy_draws(combined_hash, total, k).len() == k,
        distinct_u32(entropy_draws(combined_hash, total, k)),
        forall|i: int| 0 <= i < k ==> #[trigger] entropy_draws(combined_hash, total, k)[i] < total,
    decreases k,
{
    if k > 0 {
        lemma_entropy_draws(combined_hash, total, (k - 1) as nat);
        let prev = entropy_draws(combined_hash, total, (k - 1) as nat);
        let start = entropy_candidate(combined_hash, total, (k - 1) as u32);
        lemma_probe(prev, start, total, 0);
        let cur = entropy_draws(combined_hash, total, k);
        assert forall|i: int, j: int| 0 <= i < j < cur.len() implies cur[i] != cur[j] by {
            if j == cur.len() - 1 {
                assert(prev.contains(cur[i]));
            } else {
                assert(prev[i] != prev[j]);
            }
        }
    }
}

/// Selects `count` distinct chunks below `total_chunks` from the combined
/// entropy hash and returns them sorted. Draw `i` proposes
/// `sha256(combined_hash || i)` modulo the chunk count and probes upwards
/// (cyclically) past chunks already taken. Fails when more chunks are asked
/// for than there are.
pub fn select_chunks_from_entropy(entropy: MultiSourceEntropy, total_chunks: u32, count: u32) -> (r: HashChainResult<Vec<u32>>)
    ensures
        count > total_chunks ==> (r matches Err(e) && e is InvalidArgument),
        count <= total_chunks ==> (r matches Ok(v) && v@ == entropy_selection(entropy.combined_hash@, total_chunks, count)),
{
    if count > total_chunks {
        return Err(HashChainError::InvalidArgument { reason: String::from_str("Count cannot exceed total chunks") });
    }
    let mut selected: Vec<u32> = Vec::new();
    let mut i: u32 = 0;
    while i < count
        invariant
            i <= count,
            count <= total_chunks,
            selected@ == entropy_draws(entropy.combined_hash@, total_chunks, i as nat),
        decreases count - i,
    {
        proof {
            lemma_entropy_draws(entropy.combined_hash@, total_chunks, i as nat);
        }
        let mut hash_input = copy_bytes(entropy.combined_hash.as_slice());
        append_bytes(&mut hash_input, u64_to_be_bytes(i as u64).as_slice());
        let hash_result = sha256(hash_input.as_slice());
        let chunk_seed = u32_from_be_at(hash_result.as_slice(), 0);
        let start = chunk_seed % total_chunks;
        let mut chunk_index = start;
        let ghost mut s: nat = 0;
        assert(chunk_index == ((start + s) % (total_chunks as int)) as u32) by {
            vstd::arithmetic::div_mod::lemma_small_mod(start as nat, total_chunks as nat);
        }
        while contains_u32(&selected, chunk_index)
            invariant
                start < total_chunks,
                selected@.len() < total_chunks,
                s < total_chunks,
                chunk_index == ((start + s) % (total_chunks as int)) as u32,
                forall|t: int| 0 <= t < s ==> selected@.contains(#[trigger] probe_at(start, total_chunks, t)),
                probe_unused(selected@, start, total_chunks, 0) == probe_unused(selected@, start, total_chunks, s),
            decreases total_chunks - s,
        {
            proof {
                if s + 1 >= total_chunks {
                    assert forall|t: int| 0 <= t < s + 1 implies selected@.contains(#[trigger] probe_at(start, total_chunks, t)) by {}
                    lemma_probe(selected@, start, total_chunks, (s + 1) as nat);
                    assert(probe_unused(selected@, start, total_chunks, (s + 1) as nat) == start);
                    assert(probe_at(start, total_chunks, 0) == start) by {
                        vstd::arithmetic::div_mod::lemma_small_mod(start as nat, total_chunks as nat);
                    }
                    assert(selected@.contains(probe_at(start, total_chunks, 0)));
                    assert(false);
                }
            }
            assert(((start + s) % (total_chunks as int)) < total_chunks);
            proof {
                assert(((start + s + 1) % (total_chunks as int)) == ((chunk_index + 1) % (total_chunks as int))) by {
                    vstd::arithmetic::div_mod::lemma_add_mod_noop(start + s, 1, total_chunks as int);
                    vstd::arithmetic::div_mod::lemma_small_mod(1, total_chunks as nat);
                    vstd::arithmetic::div_mod::lemma_mod_twice(start + s, total_chunks as int);
                    vstd::arithmetic::div_mod::lemma_add_mod_noop(chunk_index as int, 1, total_chunks as int);
                    vstd::arithmetic::div_mod::lemma_small_mod(chunk_index as nat, total_chunks as nat);
                }
                s = s + 1;
            }
            chunk_index = (chunk_index + 1) % total_chunks;
        }
        selected.push(chunk_index);
        i = i + 1;
    }
    Ok(sort_u32(&selected))
}

/// Checks a claimed selection: it must be non-empty, below the chunk count,
/// and, once sorted, equal to the selection of as many chunks.
pub fn verify_chunk_selection(entropy: MultiSourceEntropy, total_chunks: u32, selected_chunks: Vec<u32>) -> (ok: bool)
    ensures
        ok == (selected_chunks@.len() > 0
            && (forall|i: int| 0 <= i < selected_chunks@.len() ==> #[trigger] selected_chunks@[i] < total_chunks)
            && (selected_chunks@.len() as u32) <= total_chunks
            && sorted_u32(selected_chunks@) == entropy_selection(
                entropy.combined_hash@,
                total_chunks,
                selected_chunks@.len() as u32,
            )),
{
    if selected_chunks.len() == 0 {
        return false;
    }
    let mut i: usize = 0;
    while i < selected_chunks.len()
        invariant
            i <= selected_chunks@.len(),
            forall|j: int| 0 <= j < i ==> #[trigger] selected_chunks@[j] < total_chunks,
        decreases selected_chunks@.len() - i,
    {
        if selected_chunks[i] >= total_chunks {
            return false;
        }
        i = i + 1;
    }
    let count = selected_chunks.len() as u32;
    let expected = match select_chunks_from_entropy(entropy, total_chunks, count) {
        Ok(chunks) => chunks,
        Err(_) => return false,
    };
    let sorted_selected = sort_u32(&selected_chunks);
    u32s_equal_vec(&sorted_selected, &expected)
}

/// Any reordering of a selection of at least one chunk passes the check
/// of `verify_chunk_selection`: it is non-empty, below the chunk count, no
/// longer than the chunk count, and sorts to the selection of as many
/// chunks. (An empty list never passes.)
pub proof fn lemma_permuted_selection_verifies(combined_hash: Seq<u8>, total_chunks: u32, count: u32, p: Seq<u32>)
    requires
        1 <= count <= total_chunks,
        p.to_multiset() == entropy_selection(combined_hash, total_chunks, count).to_multiset(),
    ensures
        p.len() > 0,
        forall|i: int| 0 <= i < p.len() ==> #[trigger] p[i] < total_chunks,
        (p.len() as u32) <= total_chunks,
        sorted_u32(p) == entropy_selection(combined_hash, total_chunks, p.len() as u32),
{
    let d = entropy_draws(combined_hash, total_chunks, count as nat);
    lemma_entropy_draws(combined_hash, total_chunks, count as nat);
    lemma_u32_leq_total();
    d.lemma_sort_by_ensures(u32_leq());
    p.lemma_sort_by_ensures(u32_leq());
    let s = entropy_selection(combined_hash, total_chunks, count);
    assert(p.len() == count) by {
        p.to_multiset_ensures();
        s.to_multiset_ensures();
        d.to_multiset_ensures();
    }
    assert forall|i: int| 0 <= i < p.len() implies #[trigger] p[i] < total_chunks by {
        p.to_multiset_ensures();
        d.to_multiset_ensures();
        assert(p.to_multiset().count(p[i]) > 0);
        assert(d.to_multiset().count(p[i]) > 0);
        assert(d.contains(p[i]));
    }
    vstd::seq_lib::lemma_sorted_unique(sorted_u32(p), s, u32_leq());
}

/// Whether two index vectors are equal.
fn u32s_equal_vec(a: &Vec<u32>, b: &Vec<u32>) -> (eq: bool)
    ensures
        eq == (a@ == b@),
{
    crate::seqs::u32s_equal(a.as_slice(), b.as_slice())
}

} // verus!
