//! The network consensus rules a storage commitment must follow: chunk
//! count, continuous-VDF format, entropy and hash sizes, and the
//! deterministic chunk selection.
use vstd::prelude::*;

use crate::consts::CHUNKS_PER_BLOCK;
use crate::types::{MemoryHardVDFProof, MultiSourceEntropy, StorageCommitment};
use crate::utils::{select_chunks_deterministic, walk_selection};
use crate::seqs::u32s_equal;

verus! {

/// Memory of the continuous VDF in bytes (256 KiB).
pub const CONTINUOUS_VDF_MEMORY_BYTES: u64 = 262144;

/// The sign bit of an `f64` bit pattern.
pub const F64_SIGN_BIT: u64 = 0x8000000000000000;

/// Whether the `f64` with these bits compares equal to zero (both zeros do;
/// every other pattern, NaN included, does not).
pub open spec fn f64_bits_is_zero(bits: u64) -> bool {
    bits == 0 || bits == F64_SIGN_BIT
}

/// Whole mebibytes of a byte count, saturating at `u32::MAX` as a float to
/// integer conversion does.
pub open spec fn whole_mib(bytes: u64) -> u32 {
    if bytes / 1048576 > u32::MAX as u64 {
        u32::MAX
    } else {
        (bytes / 1048576) as u32
    }
}

/// The consensus parameters a validator checks against.
pub struct NetworkConsensusValidator {
    /// Fewest VDF iterations accepted.
    pub min_vdf_iterations: u32,
    /// Chunks every block must select.
    pub required_chunks_per_block: u32,
    /// Largest average peer latency accepted, in milliseconds (bit pattern
    /// of an `f64`).
    pub max_network_latency_ms_bits: u64,
    /// Fewest mebibytes of VDF memory accepted.
    pub required_vdf_memory_mb: u32,
}

/// Why a commitment is refused by `validate_commitment_consensus`, if it is.
pub open spec fn commitment_violation(v: NetworkConsensusValidator, c: StorageCommitment) -> bool {
    ||| c.selected_chunks@.len() != v.required_chunks_per_block
    ||| c.vdf_proof.iterations < v.min_vdf_iterations
    ||| whole_mib(c.vdf_proof.memory_usage_bytes) < v.required_vdf_memory_mb
    ||| c.entropy.blockchain_entropy@.len() != 32
    ||| c.entropy.local_entropy@.len() != 32
    ||| c.commitment_hash@.len() != 32
}

/// Whether a VDF proof breaks the continuous-VDF format: too few iterations,
/// memory samples present, memory other than 256 KiB, a state or signature
/// that is not 32 bytes, or a nonzero computation time.
pub open spec fn vdf_violation(v: NetworkConsensusValidator, p: MemoryHardVDFProof) -> bool {
    ||| p.iterations < v.min_vdf_iterations
    ||| p.memory_access_samples@.len() != 0
    ||| p.memory_usage_bytes != CONTINUOUS_VDF_MEMORY_BYTES
    ||| p.output_state@.len() != 32
    ||| p.input_state@.len() != 32
    ||| !f64_bits_is_zero(p.computation_time_ms_bits)
}

/// Whether a chunk selection breaks the rules: wrong count, an index out of
/// range, or not the deterministic selection from the combined entropy hash.
pub open spec fn selection_violation(
    v: NetworkConsensusValidator,
    e: MultiSourceEntropy,
    total_chunks: u32,
    selected: Seq<u32>,
) -> bool {
    ||| selected.len() != v.required_chunks_per_block
    ||| exists|i: int| 0 <= i < selected.len() && #[trigger] selected[i] >= total_chunks
    ||| selected != walk_selection(e.combined_hash@, total_chunks, v.required_chunks_per_block)
}

fn reason(text: &str) -> (s: String)
    ensures
        s@ == text@,
{
    text.to_owned()
}

impl NetworkConsensusValidator {
    /// The production parameters: at least 1000 iterations, 16 chunks per
    /// block, 200 ms of latency and no memory minimum.
    pub fn new_production() -> (v: NetworkConsensusValidator)
        ensures
            v.min_vdf_iterations == 1000,
            v.required_chunks_per_block == CHUNKS_PER_BLOCK,
            v.max_network_latency_ms_bits == 0x4069000000000000,
            v.required_vdf_memory_mb == 0,
    {
        NetworkConsensusValidator {
            min_vdf_iterations: 1000,
            required_chunks_per_block: CHUNKS_PER_BLOCK,
            max_network_latency_ms_bits: 0x4069000000000000,
            required_vdf_memory_mb: 0,
        }
    }

    /// Checks chunk count, VDF iterations and memory, entropy sizes and the
    /// commitment hash size, in that order (`commitment_violation`).
    pub fn validate_commitment_consensus(&self, commitment: &StorageCommitment) -> (r: Result<(), String>)
        ensures
            r is Ok <==> !commitment_violation(*self, *commitment),
    {
        if commitment.selected_chunks.len() != self.required_chunks_per_block as usize {
            return Err(reason("Invalid chunk count"));
        }
        if commitment.vdf_proof.iterations < self.min_vdf_iterations {
            return Err(reason("VDF iterations below minimum"));
        }
        let mib = commitment.vdf_proof.memory_usage_bytes / 1048576;
        let memory_mb: u32 = if mib > u32::MAX as u64 {
            u32::MAX
        } else {
            mib as u32
        };
        if memory_mb < self.required_vdf_memory_mb {
            return Err(reason("VDF memory below requirement"));
        }
        if commitment.entropy.blockchain_entropy.len() != 32 {
            return Err(reason("Invalid blockchain entropy length"));
        }
        if commitment.entropy.local_entropy.len() != 32 {
            return Err(reason("Invalid local entropy length"));
        }
        if commitment.commitment_hash.len() != 32 {
            return Err(reason("Invalid commitment hash length"));
        }
        Ok(())
    }

    /// Checks that a VDF proof has the continuous-VDF format
    /// (`vdf_violation`).
    pub fn validate_vdf_consensus(&self, vdf_proof: &MemoryHardVDFProof) -> (r: Result<(), String>)
        ensures
            r is Ok <==> !vdf_violation(*self, *vdf_proof),
    {
        if vdf_proof.iterations < self.min_vdf_iterations {
            return Err(reason("VDF iterations insufficient"));
        }
        if vdf_proof.memory_access_samples.len() != 0 {
            return Err(
                reason(
                    "NETWORK CONSENSUS VIOLATION: Old memory-hard VDF format not accepted. Must use continuous VDF.",
                ),
            );
        }
        if vdf_proof.memory_usage_bytes != CONTINUOUS_VDF_MEMORY_BYTES {
            return Err(reason("NETWORK CONSENSUS VIOLATION: Continuous VDF must use exactly 256KB memory"));
        }
        if vdf_proof.output_state.len() != 32 {
            return Err(reason("NETWORK CONSENSUS VIOLATION: VDF signature must be exactly 32 bytes"));
        }
        if vdf_proof.input_state.len() != 32 {
            return Err(reason("NETWORK CONSENSUS VIOLATION: VDF state must be exactly 32 bytes"));
        }
        let bits = vdf_proof.computation_time_ms_bits;
        if bits != 0 && bits != F64_SIGN_BIT {
            return Err(
                reason(
                    "NETWORK CONSENSUS VIOLATION: Continuous VDF should not report discrete computation time",
                ),
            );
        }
        Ok(())
    }

    /// Checks the count, the range of every index and that the selection is
    /// the deterministic one (`selection_violation`).
    pub fn validate_chunk_selection_consensus(
        &self,
        entropy: &MultiSourceEntropy,
        total_chunks: u32,
        selected_chunks: &[u32],
    ) -> (r: Result<(), String>)
        ensures
            r is Ok <==> !selection_violation(*self, *entropy, total_chunks, selected_chunks@),
    {
        if selected_chunks.len() != self.required_chunks_per_block as usize {
            return Err(reason("Wrong chunk count"));
        }
        let mut i: usize = 0;
        while i < selected_chunks.len()
            invariant
                i <= selected_chunks@.len(),
                forall|j: int| 0 <= j < i ==> #[trigger] selected_chunks@[j] < total_chunks,
            decreases selected_chunks@.len() - i,
        {
            if selected_chunks[i] >= total_chunks {
                return Err(reason("Chunk index out of bounds"));
            }
            i = i + 1;
        }
        let expected = select_chunks_deterministic(
            entropy.combined_hash.as_slice(),
            total_chunks,
            self.required_chunks_per_block,
        );
        if expected.len() != selected_chunks.len() || !u32s_equal(selected_chunks, expected.as_slice()) {
            return Err(reason("Chunk selection does not match consensus algorithm"));
        }
        Ok(())
    }

    /// Runs the commitment, VDF and chunk selection checks in turn; the first
    /// that fails gives the error.
    pub fn validate_full_consensus(&self, commitment: &StorageCommitment, total_chunks: u32) -> (r: Result<
        (),
        String,
    >)
        ensures
            r is Ok <==> !commitment_violation(*self, *commitment) && !vdf_violation(*self, commitment.vdf_proof)
                && !selection_violation(*self, commitment.entropy, total_chunks, commitment.selected_chunks@),
    {
        match self.validate_commitment_consensus(commitment) {
            Ok(()) => {},
            Err(e) => return Err(e),
        }
        match self.validate_vdf_consensus(&commitment.vdf_proof) {
            Ok(()) => {},
            Err(e) => return Err(e),
        }
        self.validate_chunk_selection_consensus(
            &commitment.entropy,
            total_chunks,
            commitment.selected_chunks.as_slice(),
        )
    }
}

impl Default for NetworkConsensusValidator {
    fn default() -> (v: NetworkConsensusValidator)
        ensures
            v.min_vdf_iterations == 1000,
            v.required_chunks_per_block == CHUNKS_PER_BLOCK,
            v.max_network_latency_ms_bits == 0x4069000000000000,
            v.required_vdf_memory_mb == 0,
    {
        Self::new_production()
    }
}

} // verus!
