//! The consensus chunk selection: which sixteen chunks of a file a prover must
//! hash for a given block.
use vstd::prelude::*;

use crate::bytes::{be32, be64, from_be64, u32_to_be_bytes, u64_from_be_at, u64_to_be_bytes};
use crate::consts::{
    CHUNKS_PER_BLOCK, CHUNK_SELECTION_MAX_ATTEMPTS, CHUNK_SELECTION_VERSION, HASHCHAIN_MAX_CHUNKS,
    HASHCHAIN_MIN_CHUNKS,
};
use crate::crypto::{sha256, sha256_spec};
use crate::errors::{HashChainError, HashChainResult};
use crate::seqs::{
    append_bytes, contains_u32, copy_bytes, distinct_u32, lemma_exists_unused, sort_u32, sorted_u32,
    u32s_equal, unused_value,
};
use crate::utils::{validate_block_hash, validate_chunk_count};

verus! {

/// Result of the consensus chunk selection.
pub struct ChunkSelectionResult {
    /// Selected chunk indices, in the order the slots were filled.
    pub selected_indices: Vec<u32>,
    /// Version of the selection algorithm.
    pub algorithm_version: u32,
    /// Number of chunks of the file.
    pub total_chunks: u64,
    /// Block hash the selection was drawn from.
    pub block_hash: Vec<u8>,
    /// SHA-256 over the version, block hash, chunk count and sorted indices.
    pub verification_hash: Vec<u8>,
}

/// The bytes hashed for `attempt` at `slot`: block hash, slot, attempt.
pub open spec fn selection_seed_input(block_hash: Seq<u8>, slot: u32, attempt: u32) -> Seq<u8> {
    block_hash + be32(slot) + be32(attempt)
}

/// The chunk proposed at `slot` by `attempt`: the first eight bytes of the
/// seed hash, big-endian, reduced modulo the chunk count.
pub open spec fn selection_candidate(block_hash: Seq<u8>, total: u64, slot: u32, attempt: u32) -> u32 {
    (from_be64(sha256_spec(selection_seed_input(block_hash, slot, attempt)).subrange(0, 8)) % total) as u32
}

/// The first proposal at or after `attempt` (below the attempt limit) that
/// `used` does not hold.
pub open spec fn first_fresh_attempt(block_hash: Seq<u8>, total: u64, slot: u32, used: Seq<u32>, attempt: nat) -> Option<u32>
    decreases CHUNK_SELECTION_MAX_ATTEMPTS - attempt,
{
    if attempt >= CHUNK_SELECTION_MAX_ATTEMPTS {
        None
    } else {
        let c = selection_candidate(block_hash, total, slot, attempt as u32);
        if !used.contains(c) {
            Some(c)
        } else {
            first_fresh_attempt(block_hash, total, slot, used, attempt + 1)
        }
    }
}

/// The least index at or after `from` and below `total` that `used` does not hold.
pub open spec fn first_unused_from(used: Seq<u32>, from: nat, total: nat) -> Option<u32>
    decreases total - from,
{
    if from >= total {
        None
    } else if !used.contains(from as u32) {
        Some(from as u32)
    } else {
        first_unused_from(used, from + 1, total)
    }
}

/// The chunk chosen for `slot` given the chunks chosen before it: a fresh
/// proposal within the attempt limit, else the least unused index.
pub open spec fn slot_choice(block_hash: Seq<u8>, total: u64, slot: u32, used: Seq<u32>) -> Option<u32> {
    match first_fresh_attempt(block_hash, total, slot, used, 0) {
        Some(c) => Some(c),
        None => first_unused_from(used, 0, total as nat),
    }
}

/// The chunks chosen for the first `k` slots.
pub open spec fn selected_prefix(block_hash: Seq<u8>, total: u64, k: nat) -> Seq<u32>
    decreases k,
{
    if k == 0 {
        Seq::empty()
    } else {
        let prev = selected_prefix(block_hash, total, (k - 1) as nat);
        prev.push(slot_choice(block_hash, total, (k - 1) as u32, prev).unwrap())
    }
}

/// The chunks chosen for a block: one per slot.
pub open spec fn consensus_selection(block_hash: Seq<u8>, total: u64) -> Seq<u32> {
    selected_prefix(block_hash, total, CHUNKS_PER_BLOCK as nat)
}

/// Concatenated big-endian bytes of a sequence of indices.
pub open spec fn be32_concat(s: Seq<u32>) -> Seq<u8>
    decreases s.len(),
{
    if s.len() == 0 {
        Seq::empty()
    } else {
        be32_concat(s.drop_last()) + be32(s.last())
    }
}

/// The input of the verification hash of a selection.
pub open spec fn verification_input(block_hash: Seq<u8>, total: u64, selected: Seq<u32>) -> Seq<u8> {
    be32(CHUNK_SELECTION_VERSION) + block_hash + be64(total) + be32_concat(sorted_u32(selected))
}

/// Whether a chunk count is one the selection accepts.
pub open spec fn selectable_chunk_count(total: u64) -> bool {
    CHUNKS_PER_BLOCK <= total <= HASHCHAIN_MAX_CHUNKS
}

/// A fresh proposal is below the chunk count and not in `used`.
proof fn lemma_fresh_attempt(block_hash: Seq<u8>, total: u64, slot: u32, used: Seq<u32>, attempt: nat)
    requires
        0 < total <= HASHCHAIN_MAX_CHUNKS,
    ensures
        first_fresh_attempt(block_hash, total, slot, used, attempt) matches Some(c) ==> c < total
            && !used.contains(c),
    decreases CHUNK_SELECTION_MAX_ATTEMPTS - attempt,
{
    if attempt < CHUNK_SELECTION_MAX_ATTEMPTS {
        lemma_fresh_attempt(block_hash, total, slot, used, attempt + 1);
    }
}

/// The least unused index, where one exists at or after `from`, is found.
proof fn lemma_first_unused(used: Seq<u32>, from: nat, total: nat)
    requires
        total <= u32::MAX + 1,
    ensures
        first_unused_from(used, from, total) matches Some(c) ==> from <= c < total && !used.contains(c),
        (exists|c: int| from <= c < total && #[trigger] unused_value(used, c)) ==> first_unused_from(
            used,
            from,
            total,
        ) is Some,
    decreases total - from,
{
    if from < total {
        lemma_first_unused(used, from + 1, total);
        if exists|c: int| from <= c < total && #[trigger] unused_value(used, c) {
            let c = choose|c: int| from <= c < total && #[trigger] unused_value(used, c);
            if c != from {
                assert(unused_value(used, c));
            }
        }
    }
}

/// Each slot gets a chunk below the chunk count that no earlier slot got.
pub proof fn lemma_selected_prefix(block_hash: Seq<u8>, total: u64, k: nat)
    requires
        selectable_chunk_count(total),
        k <= CHUNKS_PER_BLOCK,
    ensures
        selected_prefix(block_hash, total, k).len() == k,
        distinct_u32(selected_prefix(block_hash, total, k)),
        forall|i: int| 0 <= i < k ==> #[trigger] selected_prefix(block_hash, total, k)[i] < total,
    decreases k,
{
    if k > 0 {
        let prev = selected_prefix(block_hash, total, (k - 1) as nat);
        lemma_selected_prefix(block_hash, total, (k - 1) as nat);
        let c = slot_choice(block_hash, total, (k - 1) as u32, prev);
        lemma_fresh_attempt(block_hash, total, (k - 1) as u32, prev, 0);
        lemma_exists_unused(prev, total as int);
        lemma_first_unused(prev, 0, total as nat);
        assert(c is Some && c->0 < total && !prev.contains(c->0));
        let cur = selected_prefix(block_hash, total, k);
        assert(cur == prev.push(c->0));
        assert forall|i: int, j: int| 0 <= i < j < cur.len() implies cur[i] != cur[j] by {
            if j == cur.len() - 1 {
                assert(prev[i] == cur[i]);
                assert(prev.contains(cur[i]));
            } else {
                assert(prev[i] != prev[j]);
            }
        }
    }
}

/// The chunk proposed at `slot` by `attempt`.
fn compute_candidate(block_hash: &Vec<u8>, total: u64, slot: u32, attempt: u32) -> (c: u32)
    requires
        0 < total <= HASHCHAIN_MAX_CHUNKS,
    ensures
        c == selection_candidate(block_hash@, total, slot, attempt),
        c < total,
{
    let mut seed_input = copy_bytes(block_hash.as_slice());
    append_bytes(&mut seed_input, u32_to_be_bytes(slot).as_slice());
    append_bytes(&mut seed_input, u32_to_be_bytes(attempt).as_slice());
    let seed_hash = sha256(seed_input.as_slice());
    let seed = u64_from_be_at(seed_hash.as_slice(), 0);
    (seed % total) as u32
}

/// The chunk for `slot`, given the chunks chosen before it.
fn choose_slot(block_hash: &Vec<u8>, total: u64, slot: u32, used: &Vec<u32>) -> (c: u32)
    requires
        selectable_chunk_count(total),
        used@.len() < CHUNKS_PER_BLOCK,
    ensures
        slot_choice(block_hash@, total, slot, used@) == Some(c),
{
    let mut attempt: u32 = 0;
    while attempt < CHUNK_SELECTION_MAX_ATTEMPTS
        invariant
            attempt <= CHUNK_SELECTION_MAX_ATTEMPTS,
            selectable_chunk_count(total),
            first_fresh_attempt(block_hash@, total, slot, used@, 0) == first_fresh_attempt(
                block_hash@,
                total,
                slot,
                used@,
                attempt as nat,
            ),
        decreases CHUNK_SELECTION_MAX_ATTEMPTS - attempt,
    {
        let c = compute_candidate(block_hash, total, slot, attempt);
        if !contains_u32(used, c) {
            return c;
        }
        attempt = attempt + 1;
    }
    assert(first_fresh_attempt(block_hash@, total, slot, used@, attempt as nat) is None);
    let limit = total as u32;
    let mut candidate: u32 = 0;
    proof {
        lemma_exists_unused(used@, total as int);
        lemma_first_unused(used@, 0, total as nat);
    }
    while candidate < limit
        invariant
            candidate <= limit,
            limit == total,
            first_unused_from(used@, 0, total as nat) == first_unused_from(used@, candidate as nat, total as nat),
            first_unused_from(used@, 0, total as nat) is Some,
            first_fresh_attempt(block_hash@, total, slot, used@, 0) is None,
        decreases limit - candidate,
    {
        if !contains_u32(used, candidate) {
            return candidate;
        }
        candidate = candidate + 1;
    }
    // The counting argument above shows the scan finds an index first.
    proof {
        assert(first_unused_from(used@, candidate as nat, total as nat) is None);
    }
    0
}

/// Selects the sixteen chunks of a block deterministically from the block hash.
///
/// Slot by slot, up to `CHUNK_SELECTION_MAX_ATTEMPTS` proposals are drawn from
/// `sha256(block_hash || slot || attempt)`; the first one not chosen before is
/// taken, else the least unused index. Fails on a block hash that is not 32
/// bytes, on a chunk count outside the accepted range, and on fewer chunks
/// than one block needs.
pub fn select_chunks_deterministic(block_hash: Vec<u8>, total_chunks: u64) -> (r: HashChainResult<ChunkSelectionResult>)
    ensures
        block_hash@.len() != 32 ==> r == Err::<ChunkSelectionResult, HashChainError>(
            HashChainError::InvalidBlockHashSize(block_hash@.len() as usize),
        ),
        block_hash@.len() == 32 && total_chunks > HASHCHAIN_MAX_CHUNKS ==> r == Err::<
            ChunkSelectionResult,
            HashChainError,
        >(HashChainError::TooManyChunks { count: total_chunks, max: HASHCHAIN_MAX_CHUNKS }),
        block_hash@.len() == 32 && total_chunks < HASHCHAIN_MIN_CHUNKS ==> r == Err::<
            ChunkSelectionResult,
            HashChainError,
        >(HashChainError::TooFewChunks { count: total_chunks, min: HASHCHAIN_MIN_CHUNKS }),
        block_hash@.len() == 32 && HASHCHAIN_MIN_CHUNKS <= total_chunks < CHUNKS_PER_BLOCK ==> (r matches Err(
            e,
        ) && e is InvalidArgument),
        r is Ok <==> block_hash@.len() == 32 && selectable_chunk_count(total_chunks),
        r matches Ok(res) ==> {
            &&& res.selected_indices@ == consensus_selection(block_hash@, total_chunks)
            &&& res.algorithm_version == CHUNK_SELECTION_VERSION
            &&& res.total_chunks == total_chunks
            &&& res.block_hash@ == block_hash@
            &&& res.verification_hash@ == sha256_spec(
                verification_input(block_hash@, total_chunks, res.selected_indices@),
            )
            &&& res.selected_indices@.len() == CHUNKS_PER_BLOCK
            &&& distinct_u32(res.selected_indices@)
            &&& forall|i: int| 0 <= i < res.selected_indices@.len() ==> #[trigger] res.selected_indices@[i] < total_chunks
        },
{
    validate_block_hash(&block_hash)?;
    validate_chunk_count(total_chunks)?;
    if total_chunks < CHUNKS_PER_BLOCK as u64 {
        return Err(HashChainError::InvalidArgument {
            reason: String::from_str("Total chunks must be >= CHUNKS_PER_BLOCK"),
        });
    }
    let mut selected: Vec<u32> = Vec::new();
    let mut slot: u32 = 0;
    while slot < CHUNKS_PER_BLOCK
        invariant
            slot <= CHUNKS_PER_BLOCK,
            selectable_chunk_count(total_chunks),
            selected@ == selected_prefix(block_hash@, total_chunks, slot as nat),
        decreases CHUNKS_PER_BLOCK - slot,
    {
        proof {
            lemma_selected_prefix(block_hash@, total_chunks, slot as nat);
        }
        let c = choose_slot(&block_hash, total_chunks, slot, &selected);
        selected.push(c);
        slot = slot + 1;
    }
    proof {
        lemma_selected_prefix(block_hash@, total_chunks, CHUNKS_PER_BLOCK as nat);
    }
    let mut verification_input_bytes = u32_to_be_bytes(CHUNK_SELECTION_VERSION);
    append_bytes(&mut verification_input_bytes, block_hash.as_slice());
    append_bytes(&mut verification_input_bytes, u64_to_be_bytes(total_chunks).as_slice());
    let sorted = sort_u32(&selected);
    append_be32_all(&mut verification_input_bytes, &sorted);
    let verification_hash = sha256(verification_input_bytes.as_slice());
    Ok(ChunkSelectionResult {
        selected_indices: selected,
        algorithm_version: CHUNK_SELECTION_VERSION,
        total_chunks,
        block_hash,
        verification_hash,
    })
}

/// Appends the big-endian bytes of each index to `out`.
pub fn append_be32_all(out: &mut Vec<u8>, indices: &Vec<u32>)
    ensures
        final(out)@ == old(out)@ + be32_concat(indices@),
{
    let ghost start = out@;
    let mut i: usize = 0;
    while i < indices.len()
        invariant
            i <= indices@.len(),
            out@ == start + be32_concat(indices@.subrange(0, i as int)),
        decreases indices@.len() - i,
    {
        let ghost before = out@;
        append_bytes(out, u32_to_be_bytes(indices[i]).as_slice());
        assert(indices@.subrange(0, i + 1).drop_last() =~= indices@.subrange(0, i as int));
        assert(out@ =~= start + be32_concat(indices@.subrange(0, i + 1)));
        i = i + 1;
    }
    assert(indices@.subrange(0, indices@.len() as int) =~= indices@);
}

/// Checks claimed indices against a re-run of the consensus selection.
///
/// An algorithm version other than the current one (absent means current)
/// gives `Ok(false)`. Errors of the selection itself are passed on.
/// Otherwise the claim holds exactly when it equals the selection, order
/// included.
pub fn verify_chunk_selection_internal(
    block_hash: Vec<u8>,
    total_chunks: u64,
    claimed_indices: Vec<u32>,
    expected_algorithm_version: Option<u32>,
) -> (r: HashChainResult<bool>)
    ensures
        expected_algorithm_version matches Some(v) && v != CHUNK_SELECTION_VERSION ==> r == Ok::<
            bool,
            HashChainError,
        >(false),
        !(expected_algorithm_version matches Some(v) && v != CHUNK_SELECTION_VERSION) ==> {
            &&& r is Ok <==> block_hash@.len() == 32 && selectable_chunk_count(total_chunks)
            &&& r matches Ok(b) ==> b == (claimed_indices@ == consensus_selection(block_hash@, total_chunks))
        },
{
    let expected_version = match expected_algorithm_version {
        Some(v) => v,
        None => CHUNK_SELECTION_VERSION,
    };
    if expected_version != CHUNK_SELECTION_VERSION {
        return Ok(false);
    }
    let result = select_chunks_deterministic(block_hash, total_chunks)?;
    if claimed_indices.len() != result.selected_indices.len() {
        return Ok(false);
    }
    Ok(u32s_equal(claimed_indices.as_slice(), result.selected_indices.as_slice()))
}

} // verus!
