//! Verification of proof windows and of single commitments against the
//! consensus rules.
use vstd::prelude::*;

use crate::chunk_selection::{
    consensus_selection, lemma_selected_prefix, selectable_chunk_count, verify_chunk_selection_internal,
};
use crate::commitments::{calculate_commitment_hash_internal, expected_commitment_hash, invalid_argument};
use crate::consts::{CHUNKS_PER_BLOCK, CHUNK_SELECTION_VERSION, HASH_SIZE, PROOF_WINDOW_BLOCKS};
use crate::errors::{HashChainError, HashChainResult};
use crate::seqs::{all_have_len, all_of_len, byte_views, bytes_equal, copy_bytes};
use crate::types::{PhysicalAccessCommitment, ProofWindow};
use crate::utils::validate_chunk_index;

verus! {

/// Whether every index is below the chunk count taken as a `u32`.
pub open spec fn indices_in_range(indices: Seq<u32>, total_chunks: u64) -> bool {
    forall|j: int| 0 <= j < indices.len() ==> #[trigger] indices[j] < total_chunks as u32
}

/// Whether the chunk selection of a commitment can be checked at all: its
/// block hash has 32 bytes and the chunk count is one the selection accepts.
pub open spec fn selection_checkable(c: PhysicalAccessCommitment, total_chunks: u64) -> bool {
    c.block_hash@.len() == 32 && selectable_chunk_count(total_chunks)
}

/// The outcome of checking the commitments of a window from position `k` on,
/// with `prev` the hash the next commitment must link to: `Err(())` where a
/// chunk selection cannot be checked, `Ok(false)` at the first broken rule,
/// and at the end whether the last hash is the window's end commitment.
pub open spec fn window_walk(
    cs: Seq<PhysicalAccessCommitment>,
    k: nat,
    prev: Seq<u8>,
    total_chunks: u64,
    end: Seq<u8>,
) -> Result<bool, ()>
    decreases cs.len() - k,
{
    if k >= cs.len() {
        Ok(prev == end)
    } else if step_error(cs[k as int], prev, total_chunks) {
        Err(())
    } else if !step_passes(cs[k as int], prev, total_chunks) {
        Ok(false)
    } else {
        window_walk(cs, k + 1, cs[k as int].commitment_hash@, total_chunks, end)
    }
}

/// Whether the arguments of a window check are acceptable.
pub open spec fn window_args_valid(
    window: ProofWindow,
    anchored_commitment: Seq<u8>,
    merkle_root: Seq<u8>,
    total_chunks: u64,
) -> bool {
    &&& anchored_commitment.len() == 32
    &&& merkle_root.len() == 32
    &&& total_chunks > 0
    &&& window.commitments@.len() == PROOF_WINDOW_BLOCKS
    &&& window.start_commitment@ == anchored_commitment
}

/// Checks one index list against the chunk count.
fn check_indices(indices: &Vec<u32>, total_chunks: u64) -> (ok: bool)
    ensures
        ok == indices_in_range(indices@, total_chunks),
{
    let mut i: usize = 0;
    while i < indices.len()
        invariant
            i <= indices@.len(),
            forall|j: int| 0 <= j < i ==> #[trigger] indices@[j] < total_chunks as u32,
        decreases indices@.len() - i,
    {
        if validate_chunk_index(indices[i], total_chunks).is_err() {
            return false;
        }
        i = i + 1;
    }
    true
}

/// Copies a commitment's chunk index list.
fn copy_indices(v: &Vec<u32>) -> (r: Vec<u32>)
    ensures
        r@ == v@,
{
    let mut r: Vec<u32> = Vec::new();
    let mut i: usize = 0;
    while i < v.len()
        invariant
            i <= v@.len(),
            r@ == v@.subrange(0, i as int),
        decreases v@.len() - i,
    {
        r.push(v[i]);
        i = i + 1;
    }
    assert(v@.subrange(0, v@.len() as int) =~= v@);
    r
}

#[verifier::opaque]
/// A window step that cannot be checked: the commitment links and carries
/// its own hash, but its chunk selection cannot be run.
pub open spec fn step_error(c: PhysicalAccessCommitment, prev: Seq<u8>, total_chunks: u64) -> bool {
    c.previous_commitment@ == prev && c.commitment_hash@ == expected_commitment_hash(c) && !selection_checkable(
        c,
        total_chunks,
    )
}

#[verifier::opaque]
/// A window step that keeps every rule.
pub open spec fn step_passes(c: PhysicalAccessCommitment, prev: Seq<u8>, total_chunks: u64) -> bool {
    &&& c.previous_commitment@ == prev
    &&& c.commitment_hash@ == expected_commitment_hash(c)
    &&& c.selected_chunks@ == consensus_selection(c.block_hash@, total_chunks)
    &&& indices_in_range(c.selected_chunks@, total_chunks)
    &&& all_of_len(byte_views(c.chunk_hashes@), 32)
}

/// Checks one commitment of a window (`window_walk`'s step).
fn check_window_step(c: &PhysicalAccessCommitment, prev: &Vec<u8>, total_chunks: u64) -> (r: HashChainResult<bool>)
    ensures
        r is Err <==> step_error(*c, prev@, total_chunks),
        r matches Ok(b) ==> b == step_passes(*c, prev@, total_chunks),
{
    reveal(step_error);
    reveal(step_passes);
    if !bytes_equal(c.previous_commitment.as_slice(), prev.as_slice()) {
        return Ok(false);
    }
    let expected_hash = calculate_commitment_hash_internal(c)?;
    if !bytes_equal(c.commitment_hash.as_slice(), expected_hash.as_slice()) {
        return Ok(false);
    }
    let block_hash = copy_bytes(c.block_hash.as_slice());
    let selected = copy_indices(&c.selected_chunks);
    let selection_ok = verify_chunk_selection_internal(block_hash, total_chunks, selected, Some(CHUNK_SELECTION_VERSION))?;
    if !selection_ok {
        return Ok(false);
    }
    if !check_indices(&c.selected_chunks, total_chunks) {
        return Ok(false);
    }
    if !all_have_len(&c.chunk_hashes, HASH_SIZE) {
        return Ok(false);
    }
    Ok(true)
}

/// A commitment that keeps the consensus rules on its own: it carries the
/// hash of its fields, a 32-byte block hash, the consensus chunk selection
/// of that block and 32-byte chunk hashes.
pub open spec fn follows_rules(c: PhysicalAccessCommitment, total_chunks: u64) -> bool {
    &&& c.commitment_hash@ == expected_commitment_hash(c)
    &&& c.block_hash@.len() == 32
    &&& c.selected_chunks@ == consensus_selection(c.block_hash@, total_chunks)
    &&& all_of_len(byte_views(c.chunk_hashes@), 32)
}

/// The walk from position `k`, with `prev` the hash commitment `k` links
/// to, accepts a linked run of commitments that keep the rules and end at
/// `end`.
proof fn lemma_walk_accepts(cs: Seq<PhysicalAccessCommitment>, k: nat, prev: Seq<u8>, total_chunks: u64, end: Seq<u8>)
    requires
        selectable_chunk_count(total_chunks),
        k <= cs.len(),
        k == cs.len() ==> prev == end,
        k < cs.len() ==> cs[k as int].previous_commitment@ == prev && end == cs.last().commitment_hash@,
        forall|i: int| k < i < cs.len() ==> #[trigger] cs[i].previous_commitment@ == cs[i - 1].commitment_hash@,
        forall|i: int| k <= i < cs.len() ==> #[trigger] follows_rules(cs[i], total_chunks),
    ensures
        window_walk(cs, k, prev, total_chunks, end) == Ok::<bool, ()>(true),
    decreases cs.len() - k,
{
    if k < cs.len() {
        let c = cs[k as int];
        assert(follows_rules(c, total_chunks));
        lemma_selected_prefix(c.block_hash@, total_chunks, CHUNKS_PER_BLOCK as nat);
        reveal(step_error);
        reveal(step_passes);
        assert(indices_in_range(c.selected_chunks@, total_chunks));
        assert(!step_error(c, prev, total_chunks));
        assert(step_passes(c, prev, total_chunks));
        if k + 1 < cs.len() {
            assert(cs[k + 1int].previous_commitment@ == cs[k as int].commitment_hash@);
        }
        lemma_walk_accepts(cs, k + 1, c.commitment_hash@, total_chunks, end);
    }
}

/// A window is accepted when its commitments link one to the next from its
/// start, each keeps the consensus rules (`follows_rules`), and its end is
/// the last commitment's hash: the walk of `verify_proof_of_storage_continuity_internal`
/// gives `Ok(true)`.
pub proof fn lemma_linked_window_accepted(window: ProofWindow, total_chunks: u64)
    requires
        selectable_chunk_count(total_chunks),
        window.commitments@.len() > 0,
        window.commitments@[0].previous_commitment@ == window.start_commitment@,
        forall|i: int|
            0 < i < window.commitments@.len() ==> #[trigger] window.commitments@[i].previous_commitment@
                == window.commitments@[i - 1].commitment_hash@,
        forall|i: int| 0 <= i < window.commitments@.len() ==> #[trigger] follows_rules(window.commitments@[i], total_chunks),
        window.end_commitment@ == window.commitments@.last().commitment_hash@,
    ensures
        window_walk(window.commitments@, 0, window.start_commitment@, total_chunks, window.end_commitment@) == Ok::<
            bool,
            (),
        >(true),
{
    lemma_walk_accepts(window.commitments@, 0, window.start_commitment@, total_chunks, window.end_commitment@);
}

/// What an accepted window holds, stated without the walk: the first
/// commitment names the window's start, each later one names the hash of
/// the one before it, the end is the last commitment's hash, and every
/// commitment carries the hash of its own fields, selects exactly the
/// consensus chunks of its block hash over the chunk count, keeps its
/// indices in range and has 32-byte chunk hashes.
pub open spec fn window_keeps_rules(window: ProofWindow, total_chunks: u64) -> bool {
    let cs = window.commitments@;
    &&& cs.len() > 0 ==> cs[0].previous_commitment@ == window.start_commitment@
    &&& cs.len() > 0 ==> window.end_commitment@ == cs.last().commitment_hash@
    &&& cs.len() == 0 ==> window.end_commitment@ == window.start_commitment@
    &&& forall|i: int| 0 < i < cs.len() ==> #[trigger] cs[i].previous_commitment@ == cs[i - 1].commitment_hash@
    &&& forall|i: int|
        0 <= i < cs.len() ==> {
            &&& #[trigger] cs[i].selected_chunks@ == consensus_selection(cs[i].block_hash@, total_chunks)
            &&& cs[i].commitment_hash@ == expected_commitment_hash(cs[i])
            &&& indices_in_range(cs[i].selected_chunks@, total_chunks)
            &&& all_of_len(byte_views(cs[i].chunk_hashes@), 32)
        }
}

/// A walk from position `k` that accepts has every commitment from `k` on
/// keep the rules, linked from `prev` to `end`.
proof fn lemma_walk_accepted_keeps_rules(cs: Seq<PhysicalAccessCommitment>, k: nat, prev: Seq<u8>, total_chunks: u64, end: Seq<u8>)
    requires
        k <= cs.len(),
        window_walk(cs, k, prev, total_chunks, end) == Ok::<bool, ()>(true),
    ensures
        k == cs.len() ==> prev == end,
        k < cs.len() ==> cs[k as int].previous_commitment@ == prev && end == cs.last().commitment_hash@,
        forall|i: int| k < i < cs.len() ==> #[trigger] cs[i].previous_commitment@ == cs[i - 1].commitment_hash@,
        forall|i: int|
            k <= i < cs.len() ==> {
                &&& #[trigger] cs[i].selected_chunks@ == consensus_selection(cs[i].block_hash@, total_chunks)
                &&& cs[i].commitment_hash@ == expected_commitment_hash(cs[i])
                &&& indices_in_range(cs[i].selected_chunks@, total_chunks)
                &&& all_of_len(byte_views(cs[i].chunk_hashes@), 32)
            },
    decreases cs.len() - k,
{
    if k < cs.len() {
        reveal(step_passes);
        let c = cs[k as int];
        assert(step_passes(c, prev, total_chunks));
        lemma_walk_accepted_keeps_rules(cs, k + 1, c.commitment_hash@, total_chunks, end);
    }
}

/// An accepted window keeps every rule of `window_keeps_rules`: in
/// particular no commitment in it selects chunks other than the consensus
/// selection of its block, so a prover cannot prove chunks of its choosing.
pub proof fn lemma_accepted_window_keeps_rules(window: ProofWindow, total_chunks: u64)
    requires
        window_walk(window.commitments@, 0, window.start_commitment@, total_chunks, window.end_commitment@) == Ok::<
            bool,
            (),
        >(true),
    ensures
        window_keeps_rules(window, total_chunks),
{
    lemma_walk_accepted_keeps_rules(window.commitments@, 0, window.start_commitment@, total_chunks, window.end_commitment@);
}

/// Verifies a proof window for storage continuity.
///
/// Argument errors: anchored commitment or Merkle root not 32 bytes, a zero
/// chunk count, a window without exactly `PROOF_WINDOW_BLOCKS` commitments,
/// or a start commitment other than the anchored one. Otherwise the
/// commitments are walked from the start commitment (`window_walk`): each
/// must link to the previous hash, carry the hash of its fields, follow the
/// consensus chunk selection (whose own errors are passed on), keep its
/// indices in range and its chunk hashes 32 bytes long; and the last hash
/// must be the window's end commitment.
pub fn verify_proof_of_storage_continuity_internal(
    proof_window: ProofWindow,
    anchored_commitment: Vec<u8>,
    merkle_root: Vec<u8>,
    total_chunks: u64,
) -> (r: HashChainResult<bool>)
    ensures
        !window_args_valid(proof_window, anchored_commitment@, merkle_root@, total_chunks) ==> (r matches Err(e)
            && e is InvalidArgument),
        window_args_valid(proof_window, anchored_commitment@, merkle_root@, total_chunks) ==> {
            let outcome = window_walk(
                proof_window.commitments@,
                0,
                proof_window.start_commitment@,
                total_chunks,
                proof_window.end_commitment@,
            );
            &&& r is Err <==> outcome is Err
            &&& r matches Ok(b) ==> outcome == Ok::<bool, ()>(b)
        },
        r matches Ok(true) ==> window_keeps_rules(proof_window, total_chunks),
{
    if anchored_commitment.len() != HASH_SIZE {
        return Err(invalid_argument("Anchored commitment must be 32 bytes"));
    }
    if merkle_root.len() != HASH_SIZE {
        return Err(invalid_argument("Merkle root must be 32 bytes"));
    }
    if total_chunks == 0 {
        return Err(invalid_argument("Total chunks must be positive"));
    }
    if proof_window.commitments.len() != PROOF_WINDOW_BLOCKS as usize {
        return Err(invalid_argument("Proof window must have exactly the proof window number of commitments"));
    }
    if !bytes_equal(proof_window.start_commitment.as_slice(), anchored_commitment.as_slice()) {
        return Err(invalid_argument("Start commitment does not match anchored commitment"));
    }
    let cs = &proof_window.commitments;
    let mut expected_previous = copy_bytes(proof_window.start_commitment.as_slice());
    let mut i: usize = 0;
    while i < cs.len()
        invariant
            i <= cs@.len(),
            cs@ == proof_window.commitments@,
            window_args_valid(proof_window, anchored_commitment@, merkle_root@, total_chunks),
            window_walk(cs@, 0, proof_window.start_commitment@, total_chunks, proof_window.end_commitment@)
                == window_walk(cs@, i as nat, expected_previous@, total_chunks, proof_window.end_commitment@),
        decreases cs@.len() - i,
    {
        let step = check_window_step(&cs[i], &expected_previous, total_chunks);
        match step {
            Err(e) => {
                return Err(e);
            },
            Ok(false) => {
                return Ok(false);
            },
            Ok(true) => {},
        }
        expected_previous = copy_bytes(cs[i].commitment_hash.as_slice());
        i = i + 1;
    }
    let accepted = bytes_equal(expected_previous.as_slice(), proof_window.end_commitment.as_slice());
    proof {
        if accepted {
            lemma_accepted_window_keeps_rules(proof_window, total_chunks);
        }
    }
    Ok(accepted)
}

/// The outcome of checking a single commitment: `Ok(false)` on a wrong hash,
/// `Err(())` where the selection cannot be checked, otherwise whether the
/// selection is the consensus one, there are as many hashes as indices,
/// exactly `CHUNKS_PER_BLOCK` indices, all in range, and all hashes 32 bytes.
pub open spec fn commitment_integrity(c: PhysicalAccessCommitment, total_chunks: u64) -> Result<bool, ()> {
    if c.commitment_hash@ != expected_commitment_hash(c) {
        Ok(false)
    } else if !selection_checkable(c, total_chunks) {
        Err(())
    } else {
        Ok(
            c.selected_chunks@ == consensus_selection(c.block_hash@, total_chunks) && c.selected_chunks@.len()
                == c.chunk_hashes@.len() && c.selected_chunks@.len() == CHUNKS_PER_BLOCK && indices_in_range(
                c.selected_chunks@,
                total_chunks,
            ) && all_of_len(byte_views(c.chunk_hashes@), 32),
        )
    }
}

/// Verifies a single commitment's integrity (`commitment_integrity`); errors
/// of the chunk selection check are passed on.
pub fn verify_commitment_integrity(commitment: &PhysicalAccessCommitment, total_chunks: u64) -> (r: HashChainResult<
    bool,
>)
    ensures
        r is Err <==> commitment_integrity(*commitment, total_chunks) is Err,
        r matches Ok(b) ==> commitment_integrity(*commitment, total_chunks) == Ok::<bool, ()>(b),
{
    let calculated = calculate_commitment_hash_internal(commitment)?;
    if !bytes_equal(commitment.commitment_hash.as_slice(), calculated.as_slice()) {
        return Ok(false);
    }
    let block_hash = copy_bytes(commitment.block_hash.as_slice());
    let selected = copy_indices(&commitment.selected_chunks);
    let selection_ok = verify_chunk_selection_internal(block_hash, total_chunks, selected, Some(CHUNK_SELECTION_VERSION))?;
    if !selection_ok {
        return Ok(false);
    }
    if commitment.selected_chunks.len() != commitment.chunk_hashes.len() {
        return Ok(false);
    }
    if commitment.selected_chunks.len() != CHUNKS_PER_BLOCK as usize {
        return Ok(false);
    }
    if !check_indices(&commitment.selected_chunks, total_chunks) {
        return Ok(false);
    }
    if !all_have_len(&commitment.chunk_hashes, HASH_SIZE) {
        return Ok(false);
    }
    Ok(true)
}

} // verus!
