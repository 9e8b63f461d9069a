//! Data types exchanged between provers, verifiers and the chain.
//!
//! Times and other measured quantities that the system carries as 64-bit
//! floating-point numbers are held here as their IEEE-754 bit patterns
//! (fields ending in `_bits`); the system only hashes, serialises or compares
//! them for equality, all of which the bit pattern determines. Block heights
//! and chunk counts, which the system converts to integers before use, are
//! held as integers.
use vstd::prelude::*;

verus! {

/// Entropy combined from the chain, an optional beacon and the prover.
pub struct MultiSourceEntropy {
    /// Block hash used as chain entropy.
    pub blockchain_entropy: Vec<u8>,
    /// External beacon entropy, if any.
    pub beacon_entropy: Option<Vec<u8>>,
    /// Prover-local randomness.
    pub local_entropy: Vec<u8>,
    /// Collection time in seconds (bit pattern of an `f64`).
    pub timestamp_bits: u64,
    /// Hash of the combined sources.
    pub combined_hash: Vec<u8>,
}

/// One sampled memory access of the memory-hard VDF.
pub struct MemoryAccessSample {
    /// Iteration at which the sample was taken.
    pub iteration: u32,
    /// Address read.
    pub read_address: u64,
    /// Address written.
    pub write_address: u64,
    /// Hash of the memory read.
    pub memory_content_hash: Vec<u8>,
}

/// Proof of a memory-hard VDF computation.
pub struct MemoryHardVDFProof {
    /// Input state.
    pub input_state: Vec<u8>,
    /// Output state.
    pub output_state: Vec<u8>,
    /// Number of iterations performed.
    pub iterations: u32,
    /// Sampled memory accesses.
    pub memory_access_samples: Vec<MemoryAccessSample>,
    /// Computation time in milliseconds (bit pattern of an `f64`).
    pub computation_time_ms_bits: u64,
    /// Memory used in bytes.
    pub memory_usage_bytes: u64,
}

/// Commitment that binds data to a public key.
pub struct OwnershipCommitment {
    /// Prover's public key (32 bytes).
    pub public_key: Vec<u8>,
    /// Hash of the data (32 bytes).
    pub data_hash: Vec<u8>,
    /// SHA-256 of data hash then public key.
    pub commitment_hash: Vec<u8>,
}

/// A block of the underlying chain.
pub struct BlockCommitment {
    /// Block height.
    pub block_height: u64,
    /// Block hash (32 bytes).
    pub block_hash: Vec<u8>,
    /// Optional timestamp (bit pattern of an `f64`).
    pub timestamp_bits: Option<u64>,
}

/// Ownership commitment anchored at a block.
pub struct AnchoredOwnershipCommitment {
    /// The ownership commitment.
    pub ownership_commitment: OwnershipCommitment,
    /// The block it is anchored at.
    pub block_commitment: BlockCommitment,
    /// SHA-256 of commitment hash, block hash and block height.
    pub anchored_hash: Vec<u8>,
}

/// Commitment proving access to selected chunks at a block.
pub struct PhysicalAccessCommitment {
    /// Block height.
    pub block_height: u64,
    /// Hash of the previous commitment in the chain (32 bytes).
    pub previous_commitment: Vec<u8>,
    /// Block hash (32 bytes).
    pub block_hash: Vec<u8>,
    /// Indices of the selected chunks.
    pub selected_chunks: Vec<u32>,
    /// SHA-256 of each selected chunk.
    pub chunk_hashes: Vec<Vec<u8>>,
    /// Hash over all of the above.
    pub commitment_hash: Vec<u8>,
}

/// The last commitments of a chain, presented for verification.
pub struct ProofWindow {
    /// The commitments of the window, oldest first.
    pub commitments: Vec<PhysicalAccessCommitment>,
    /// Merkle proofs of the selected chunks.
    pub merkle_proofs: Vec<Vec<u8>>,
    /// Hash of the first commitment of the window.
    pub start_commitment: Vec<u8>,
    /// Hash of the last commitment of the window.
    pub end_commitment: Vec<u8>,
}

/// Record of a prover-specific file encoding.
pub struct FileEncodingInfo {
    /// Hash of the original file.
    pub original_hash: Vec<u8>,
    /// Hash of the encoded file.
    pub encoded_hash: Vec<u8>,
    /// Prover key used for the encoding.
    pub prover_key: Vec<u8>,
    /// Encoding algorithm version.
    pub encoding_version: u32,
    /// Encoding parameters.
    pub encoding_params: Vec<u8>,
}

/// Storage commitment of the prover / verifier interface.
pub struct StorageCommitment {
    /// Prover's public key.
    pub prover_key: Vec<u8>,
    /// Hash of the data file.
    pub data_hash: Vec<u8>,
    /// Block height of the commitment.
    pub block_height: u32,
    /// Block hash.
    pub block_hash: Vec<u8>,
    /// Selected chunk indices.
    pub selected_chunks: Vec<u32>,
    /// Hashes of the selected chunks.
    pub chunk_hashes: Vec<Vec<u8>>,
    /// Memory-hard VDF proof.
    pub vdf_proof: MemoryHardVDFProof,
    /// Entropy used.
    pub entropy: MultiSourceEntropy,
    /// Commitment hash.
    pub commitment_hash: Vec<u8>,
}

/// Ownership commitment that binds the prover-specific encoding of a file.
pub struct EnhancedOwnershipCommitment {
    /// Prover's public key.
    pub public_key: Vec<u8>,
    /// Hash of the encoded data.
    pub encoded_data_hash: Vec<u8>,
    /// Hash of the original data.
    pub original_data_hash: Vec<u8>,
    /// Encoding parameters derived from the prover key.
    pub encoding_params: Vec<u8>,
    /// Commitment hash.
    pub commitment_hash: Vec<u8>,
}

/// A prover's answer to an availability challenge.
pub struct AvailabilityResponse {
    /// Identifier of the challenge answered.
    pub challenge_id: Vec<u8>,
    /// The chunk's bytes.
    pub chunk_data: Vec<u8>,
    /// Response time (bit pattern of an `f64`).
    pub response_time_bits: u64,
    /// Proof that the chunk is authentic.
    pub authenticity_proof: Vec<u8>,
}

/// A chain as the hierarchy manager tracks it.
pub struct LightweightHashChain {
    /// Chain identifier.
    pub chain_id: Vec<u8>,
    /// Owner's public key.
    pub public_key: Vec<u8>,
    /// Data file path.
    pub data_file_path: String,
    /// Total chunks in the file.
    pub total_chunks: u64,
    /// Current commitment.
    pub current_commitment: Option<Vec<u8>>,
    /// Chain length.
    pub chain_length: u32,
    /// Initial block height.
    pub initial_block_height: u64,
    /// Initial block hash.
    pub initial_block_hash: Vec<u8>,
    /// File encoding information.
    pub file_encoding: Option<FileEncodingInfo>,
    /// Last availability score (bit pattern of an `f64`).
    pub availability_score_bits: u64,
    /// Last latency score (bit pattern of an `f64`).
    pub latency_score_bits: u64,
}

impl LightweightHashChain {
    /// A copy of the chain identifier.
    pub fn get_chain_id(&self) -> (id: Vec<u8>)
        ensures
            id@ == self.chain_id@,
    {
        crate::seqs::copy_bytes(self.chain_id.as_slice())
    }
}

/// A key and a value of free-form metadata.
pub struct MetadataEntry {
    /// Key.
    pub key: String,
    /// Value.
    pub value: String,
}

/// Global state over all chains.
pub struct GlobalChainState {
    /// Current block height being processed.
    pub current_block_height: u64,
    /// Current global temporal proof.
    pub global_temporal_proof: Vec<u8>,
    /// Number of active chains.
    pub active_chain_count: u32,
    /// Master chain hash combining all chains.
    pub master_chain_hash: Vec<u8>,
    /// Last update time (bit pattern of an `f64`).
    pub last_update_time_bits: u64,
    /// Previous global proof, for linkage.
    pub previous_global_proof: Vec<u8>,
}

/// Metadata of a chain.
pub struct ChainMetadata {
    /// Owner's public key.
    pub public_key: Vec<u8>,
    /// Block at which the chain was added.
    pub added_at_block: u64,
    /// Data file path.
    pub data_file_path: String,
    /// Retention policy.
    pub retention_policy: String,
    /// Additional metadata.
    pub metadata: Vec<MetadataEntry>,
}

/// Lifecycle record of a chain.
pub struct ChainLifecycleRecord {
    /// Chain identifier.
    pub chain_id: Vec<u8>,
    /// Owner's public key.
    pub public_key: Vec<u8>,
    /// Block at which the chain was added.
    pub added_at_block: u64,
    /// Time at which the chain was added (bit pattern of an `f64`).
    pub added_at_time_bits: u64,
    /// Retention policy.
    pub retention_policy: String,
    /// Additional metadata.
    pub metadata: Vec<MetadataEntry>,
    /// Block at which removal was requested.
    pub removal_requested_at_block: Option<u64>,
    /// Block at which the chain was removed.
    pub removed_at_block: Option<u64>,
    /// Time at which the chain was removed (bit pattern of an `f64`).
    pub removed_at_time_bits: Option<u64>,
    /// Reason for removal.
    pub removal_reason: Option<String>,
}

/// Retention policy.
pub struct RetentionPolicy {
    /// Days to retain.
    pub days: u32,
}

/// A challenge to serve one chunk of a chain.
pub struct AvailabilityChallenge {
    /// Chain challenged.
    pub chain_id: Vec<u8>,
    /// Chunk to serve.
    pub chunk_index: u32,
    /// Challenge nonce.
    pub challenge_nonce: Vec<u8>,
    /// Challenger identifier.
    pub challenger_id: Vec<u8>,
    /// Challenge time (bit pattern of an `f64`).
    pub challenge_time_bits: u64,
    /// Response deadline (bit pattern of an `f64`).
    pub deadline_bits: u64,
    /// Reward for a successful challenge (bit pattern of an `f64`).
    pub reward_amount_bits: u64,
}

} // verus!
