//! The prover, verifier and network-manager interface of the system, and
//! the top-level helpers on storage commitments and memory-hard VDF proofs.
//! Times are the bit patterns of `f64` seconds or milliseconds, read from the
//! clock by the caller.
use vstd::prelude::*;

use crate::bytes::{be32, be64, u32_to_be_bytes, u64_to_be_bytes};
use crate::chunk_selection::{append_be32_all, be32_concat};
use crate::consts::{CHAINS_PER_GROUP, CHUNK_SIZE_BYTES, HASHCHAIN_MAX_CHUNKS, HASHCHAIN_MIN_CHUNKS};
use crate::storage::{chunk_count, stream_accepted};
use crate::crypto::{bytes_to_hex, hex_encode_spec, sha256, sha256_spec};
use crate::entropy::{beacon_bytes, opt_view};
use crate::errors::{HashChainError, HashChainResult};
use crate::hashchain::IndividualHashChain;
use crate::ids::{decimal, format_zero_padded};
use crate::manager::HierarchicalGlobalChainManager;
use crate::seqs::{append_all_bytes, append_bytes, byte_views, copy_bytes, flatten_bytes};
use crate::types::{MemoryHardVDFProof, MultiSourceEntropy, StorageCommitment};
use crate::utils::{validate_block_hash, validate_public_key};

verus! {

/// Bits of the `f64` 1000.0.
pub const F64_BITS_1000: u64 = 0x408F400000000000;
/// Bits of the `f64` 500.0.
pub const F64_BITS_500: u64 = 0x407F400000000000;
/// Memory a placeholder VDF proof reports (256 MiB).
pub const PLACEHOLDER_VDF_MEMORY: u64 = 268435456;

/// A challenge to prove storage of some chunks.
pub struct StorageChallenge {
    /// Challenge identifier.
    pub challenge_id: Vec<u8>,
    /// Prover challenged.
    pub prover_key: Vec<u8>,
    /// Commitment the challenge is about.
    pub commitment_hash: Vec<u8>,
    /// Chunks to serve.
    pub challenged_chunks: Vec<u32>,
    /// Challenge nonce.
    pub nonce: Vec<u8>,
    /// Issue time (bit pattern of an `f64`).
    pub timestamp_bits: u64,
    /// Deadline (bit pattern of an `f64`).
    pub deadline_bits: u64,
}

/// A prover's answer to a storage challenge.
pub struct ChallengeResponse {
    /// Challenge answered.
    pub challenge_id: Vec<u8>,
    /// Data of every challenged chunk.
    pub chunk_data: Vec<Vec<u8>>,
    /// Merkle proof of every chunk.
    pub merkle_proofs: Vec<Vec<u8>>,
    /// Response time (bit pattern of an `f64`).
    pub timestamp_bits: u64,
    /// Proof of access.
    pub access_proof: MemoryHardVDFProof,
}

/// A compact storage proof.
pub struct CompactStorageProof {
    /// Prover.
    pub prover_key: Vec<u8>,
    /// Commitment proven.
    pub commitment_hash: Vec<u8>,
    /// Block height.
    pub block_height: u32,
    /// Chunk proofs.
    pub chunk_proofs: Vec<Vec<u8>>,
    /// VDF proof.
    pub vdf_proof: MemoryHardVDFProof,
    /// Position in the network.
    pub network_position: Vec<u8>,
    /// Proof time (bit pattern of an `f64`).
    pub timestamp_bits: u64,
}

/// Metadata of a full proof.
pub struct ProofMetadata {
    /// Proof time (bit pattern of an `f64`).
    pub timestamp_bits: u64,
    /// Chains in the system.
    pub total_chains: u32,
    /// Algorithm version.
    pub version: u32,
    /// Proof type.
    pub proof_type: String,
    /// VDF metadata.
    pub vdf_metadata: Option<String>,
    /// Availability challenges answered.
    pub availability_challenges: u32,
}

/// A full storage proof.
pub struct FullStorageProof {
    /// Prover.
    pub prover_key: Vec<u8>,
    /// The commitment.
    pub commitment: StorageCommitment,
    /// Hashes of all chunks.
    pub all_chunk_hashes: Vec<Vec<u8>>,
    /// Merkle tree nodes.
    pub merkle_tree: Vec<Vec<u8>>,
    /// Chain of VDF proofs.
    pub vdf_chain: Vec<MemoryHardVDFProof>,
    /// Network proofs.
    pub network_proofs: Vec<Vec<u8>>,
    /// Metadata.
    pub metadata: ProofMetadata,
}

/// A node of the network.
pub struct NetworkNode {
    /// Node key.
    pub node_key: Vec<u8>,
    /// Node type.
    pub node_type: String,
    /// Reputation (bit pattern of an `f64`).
    pub reputation_bits: u64,
    /// Last activity time (bit pattern of an `f64`).
    pub last_activity_bits: u64,
    /// Position in the network.
    pub position: Vec<u8>,
}

/// Two nodes hold the same values.
pub open spec fn same_node(a: NetworkNode, b: NetworkNode) -> bool {
    &&& a.node_key@ == b.node_key@
    &&& a.node_type@ == b.node_type@
    &&& a.reputation_bits == b.reputation_bits
    &&& a.last_activity_bits == b.last_activity_bits
    &&& a.position@ == b.position@
}

/// Statistics of the network. The ratios and the storage are bit patterns of
/// `f64` values.
pub struct NetworkStats {
    /// Provers.
    pub total_provers: u32,
    /// Verifiers.
    pub total_verifiers: u32,
    /// Health score.
    pub health_score_bits: u64,
    /// Storage.
    pub total_storage_bits: u64,
    /// Challenge success rate.
    pub challenge_success_rate_bits: u64,
}

/// `n` copies of `len` zero bytes.
pub open spec fn zero_blocks(n: nat, len: nat) -> Seq<Seq<u8>> {
    Seq::new(n, |i: int| Seq::new(len, |j: int| 0u8))
}

/// `len` zero bytes.
pub open spec fn zeros(len: nat) -> Seq<u8> {
    Seq::new(len, |j: int| 0u8)
}

/// A vector of `len` zero bytes.
fn zero_bytes(len: usize) -> (v: Vec<u8>)
    ensures
        v@ == zeros(len as nat),
{
    let mut v: Vec<u8> = Vec::new();
    let mut i: usize = 0;
    while i < len
        invariant
            i <= len,
            v@ =~= zeros(i as nat),
        decreases len - i,
    {
        v.push(0u8);
        i = i + 1;
    }
    v
}

/// `n` vectors of `len` zero bytes.
fn zero_vectors(n: usize, len: usize) -> (v: Vec<Vec<u8>>)
    ensures
        byte_views(v@) == zero_blocks(n as nat, len as nat),
{
    let mut v: Vec<Vec<u8>> = Vec::new();
    let mut i: usize = 0;
    while i < n
        invariant
            i <= n,
            v@.len() == i,
            byte_views(v@) =~= zero_blocks(i as nat, len as nat),
        decreases n - i,
    {
        let ghost before = v@;
        v.push(zero_bytes(len));
        assert forall|k: int| 0 <= k < i + 1 implies #[trigger] byte_views(v@)[k] == zero_blocks(
            (i + 1) as nat,
            len as nat,
        )[k] by {
            if k < i {
                assert(v@[k] == before[k]);
                assert(byte_views(before)[k] == zero_blocks(i as nat, len as nat)[k]);
            }
        }
        assert(byte_views(v@) =~= zero_blocks((i + 1) as nat, len as nat));
        i = i + 1;
    }
    v
}

/// The placeholder VDF proof of the interface: zero 32-byte states,
/// `iterations` iterations, no samples, and the given time and memory.
pub open spec fn is_placeholder_vdf(p: MemoryHardVDFProof, iterations: u32, time_bits: u64, memory: u64) -> bool {
    &&& p.input_state@ == zeros(32)
    &&& p.output_state@ == zeros(32)
    &&& p.iterations == iterations
    &&& p.memory_access_samples@.len() == 0
    &&& p.computation_time_ms_bits == time_bits
    &&& p.memory_usage_bytes == memory
}

fn placeholder_vdf(iterations: u32, time_bits: u64, memory: u64) -> (p: MemoryHardVDFProof)
    ensures
        is_placeholder_vdf(p, iterations, time_bits, memory),
{
    MemoryHardVDFProof {
        input_state: zero_bytes(32),
        output_state: zero_bytes(32),
        iterations,
        memory_access_samples: Vec::new(),
        computation_time_ms_bits: time_bits,
        memory_usage_bytes: memory,
    }
}

/// The placeholder commitment of the interface: the prover's key, zero
/// hashes, chunks 0 to 3 with zero hashes, a placeholder VDF proof and zero
/// entropy stamped with `timestamp_bits`.
pub open spec fn is_placeholder_commitment(c: StorageCommitment, prover_key: Seq<u8>, block_height: u32, timestamp_bits: u64) -> bool {
    &&& c.prover_key@ == prover_key
    &&& c.data_hash@ == zeros(32)
    &&& c.block_height == block_height
    &&& c.block_hash@ == zeros(32)
    &&& c.selected_chunks@ == seq![0u32, 1u32, 2u32, 3u32]
    &&& byte_views(c.chunk_hashes@) == zero_blocks(4, 32)
    &&& is_placeholder_vdf(c.vdf_proof, 1000, F64_BITS_1000, PLACEHOLDER_VDF_MEMORY)
    &&& c.entropy.blockchain_entropy@ == zeros(32)
    &&& c.entropy.beacon_entropy is None
    &&& c.entropy.local_entropy@ == zeros(32)
    &&& c.entropy.timestamp_bits == timestamp_bits
    &&& c.entropy.combined_hash@ == zeros(32)
    &&& c.commitment_hash@ == zeros(32)
}

fn placeholder_commitment(prover_key: &Vec<u8>, block_height: u32, timestamp_bits: u64) -> (c: StorageCommitment)
    ensures
        is_placeholder_commitment(c, prover_key@, block_height, timestamp_bits),
{
    StorageCommitment {
        prover_key: copy_bytes(prover_key.as_slice()),
        data_hash: zero_bytes(32),
        block_height,
        block_hash: zero_bytes(32),
        selected_chunks: vec![0u32, 1u32, 2u32, 3u32],
        chunk_hashes: zero_vectors(4, 32),
        vdf_proof: placeholder_vdf(1000, F64_BITS_1000, PLACEHOLDER_VDF_MEMORY),
        entropy: MultiSourceEntropy {
            blockchain_entropy: zero_bytes(32),
            beacon_entropy: None,
            local_entropy: zero_bytes(32),
            timestamp_bits,
            combined_hash: zero_bytes(32),
        },
        commitment_hash: zero_bytes(32),
    }
}

/// The sum of the bytes of a key.
pub open spec fn byte_sum(s: Seq<u8>) -> nat
    decreases s.len(),
{
    if s.len() == 0 {
        0
    } else {
        byte_sum(s.drop_last()) + s.last() as nat
    }
}

/// The sum of the bytes of a key, as the `u32` sum of the original wraps
/// never for keys under 2^24 bytes.
fn key_byte_sum(key: &Vec<u8>) -> (s: u32)
    requires
        key@.len() < 0x1000000,
    ensures
        s == byte_sum(key@),
{
    let mut s: u32 = 0;
    let mut i: usize = 0;
    while i < key.len()
        invariant
            i <= key@.len(),
            key@.len() < 0x1000000,
            s == byte_sum(key@.subrange(0, i as int)),
            s <= 255 * i,
        decreases key@.len() - i,
    {
        assert(key@.subrange(0, i + 1).drop_last() =~= key@.subrange(0, i as int));
        s = s + key[i] as u32;
        i = i + 1;
    }
    assert(key@.subrange(0, key@.len() as int) =~= key@);
    s
}

/// Whether an `f64` with these bits lies strictly between 0 and 1000: for
/// non-negative floats the bit patterns order as the values, negative ones
/// and NaNs lie outside.
pub open spec fn f64_bits_in_open_0_1000(bits: u64) -> bool {
    0 < bits < F64_BITS_1000
}

/// The storage prover of the interface.
pub struct ProofOfStorageProver {
    /// The prover's key (32 bytes).
    pub prover_key: Vec<u8>,
    /// The chain holding the stored data, once data is stored.
    pub inner_chain: Option<IndividualHashChain>,
}

impl ProofOfStorageProver {
    /// A prover for a 32-byte key; another size is `InvalidPublicKeySize`.
    pub fn new(prover_key: Vec<u8>) -> (r: HashChainResult<ProofOfStorageProver>)
        ensures
            prover_key@.len() != 32 ==> (r matches Err(e) && e == HashChainError::InvalidPublicKeySize(
                prover_key@.len() as usize,
            )),
            prover_key@.len() == 32 ==> (r matches Ok(p) && p.prover_key@ == prover_key@ && p.inner_chain is None),
    {
        match validate_public_key(&prover_key) {
            Ok(()) => {},
            Err(e) => return Err(e),
        }
        Ok(ProofOfStorageProver { prover_key, inner_chain: None })
    }

    /// Stores data in a fresh chain (at height 0, zero block hash) under
    /// `output_directory` and returns the placeholder commitment at height 0.
    /// It succeeds exactly when the chain accepts the data
    /// (`stream_accepted`: a 32-byte key and a chunk count in range). Errors
    /// of the chain are passed on and leave the prover unchanged.
    pub fn store_data(&mut self, data: &[u8], output_directory: String, timestamp_bits: u64) -> (r: HashChainResult<
        StorageCommitment,
    >)
        requires
            data@.len() <= u32::MAX as nat * CHUNK_SIZE_BYTES,
        ensures
            final(self).prover_key == old(self).prover_key,
            r is Ok <==> stream_accepted(old(self).prover_key@, data@.len()),
            old(self).prover_key@.len() != 32 ==> (r matches Err(e) && e is FileFormat),
            old(self).prover_key@.len() == 32 && chunk_count(data@.len() as u64) > HASHCHAIN_MAX_CHUNKS ==> (r matches Err(
                e,
            ) && e is TooManyChunks),
            old(self).prover_key@.len() == 32 && chunk_count(data@.len() as u64) < HASHCHAIN_MIN_CHUNKS ==> (r matches Err(
                e,
            ) && e is TooFewChunks),
            r is Err ==> *final(self) == *old(self),
            r matches Ok(c) ==> is_placeholder_commitment(c, old(self).prover_key@, 0, timestamp_bits),
            r is Ok ==> (final(self).inner_chain matches Some(ch) && ch.public_key@ == old(self).prover_key@
                && ch.storage is Some),
    {
        let mut chain = match IndividualHashChain::new_minimal(copy_bytes(self.prover_key.as_slice()), 0, zero_bytes(32)) {
            Ok(c) => c,
            Err(e) => return Err(e),
        };
        match chain.stream_data(data, output_directory) {
            Ok(()) => {},
            Err(e) => return Err(e),
        }
        self.inner_chain = Some(chain);
        Ok(placeholder_commitment(&self.prover_key, 0, timestamp_bits))
    }

    /// The placeholder commitment at the given height (0 when none).
    pub fn generate_commitment(&self, block_height: Option<u32>, timestamp_bits: u64) -> (r: HashChainResult<
        StorageCommitment,
    >)
        ensures
            r matches Ok(c) && is_placeholder_commitment(
                c,
                self.prover_key@,
                match block_height {
                    Some(h) => h,
                    None => 0,
                },
                timestamp_bits,
            ),
    {
        let height = match block_height {
            Some(h) => h,
            None => 0,
        };
        Ok(placeholder_commitment(&self.prover_key, height, timestamp_bits))
    }

    /// A compact proof with zero hashes, four zero chunk proofs and a
    /// placeholder VDF proof.
    pub fn create_compact_proof(&self, timestamp_bits: u64) -> (r: HashChainResult<CompactStorageProof>)
        ensures
            r matches Ok(p) && {
                &&& p.prover_key@ == self.prover_key@
                &&& p.commitment_hash@ == zeros(32)
                &&& p.block_height == 0
                &&& byte_views(p.chunk_proofs@) == zero_blocks(4, 32)
                &&& is_placeholder_vdf(p.vdf_proof, 1000, F64_BITS_1000, PLACEHOLDER_VDF_MEMORY)
                &&& p.network_position@ == zeros(32)
                &&& p.timestamp_bits == timestamp_bits
            },
    {
        Ok(CompactStorageProof {
            prover_key: copy_bytes(self.prover_key.as_slice()),
            commitment_hash: zero_bytes(32),
            block_height: 0,
            chunk_proofs: zero_vectors(4, 32),
            vdf_proof: placeholder_vdf(1000, F64_BITS_1000, PLACEHOLDER_VDF_MEMORY),
            network_position: zero_bytes(32),
            timestamp_bits,
        })
    }

    /// A full proof around the placeholder commitment at height 0.
    pub fn create_full_proof(&self, timestamp_bits: u64) -> (r: HashChainResult<FullStorageProof>)
        ensures
            r matches Ok(p) && {
                &&& p.prover_key@ == self.prover_key@
                &&& is_placeholder_commitment(p.commitment, self.prover_key@, 0, timestamp_bits)
                &&& byte_views(p.all_chunk_hashes@) == zero_blocks(4, 32)
                &&& byte_views(p.merkle_tree@) == zero_blocks(8, 32)
                &&& p.vdf_chain@.len() == 0
                &&& byte_views(p.network_proofs@) == zero_blocks(2, 32)
                &&& p.metadata.timestamp_bits == timestamp_bits
                &&& p.metadata.total_chains == 100
                &&& p.metadata.version == 1
                &&& p.metadata.proof_type@ == "full"@
                &&& (p.metadata.vdf_metadata matches Some(m) && m@ == "memory_hard_vdf"@)
                &&& p.metadata.availability_challenges == 0
            },
    {
        let commitment = match self.generate_commitment(None, timestamp_bits) {
            Ok(c) => c,
            Err(e) => return Err(e),
        };
        Ok(FullStorageProof {
            prover_key: copy_bytes(self.prover_key.as_slice()),
            commitment,
            all_chunk_hashes: zero_vectors(4, 32),
            merkle_tree: zero_vectors(8, 32),
            vdf_chain: Vec::new(),
            network_proofs: zero_vectors(2, 32),
            metadata: ProofMetadata {
                timestamp_bits,
                total_chains: 100,
                version: 1,
                proof_type: "full".to_owned(),
                vdf_metadata: Some("memory_hard_vdf".to_owned()),
                availability_challenges: 0,
            },
        })
    }

    /// A response with a zero 4096-byte chunk and a zero 32-byte proof for
    /// every challenged chunk, and a placeholder access proof.
    pub fn respond_to_challenge(&self, challenge: StorageChallenge, timestamp_bits: u64) -> (r: HashChainResult<
        ChallengeResponse,
    >)
        ensures
            r matches Ok(resp) && {
                &&& resp.challenge_id@ == challenge.challenge_id@
                &&& byte_views(resp.chunk_data@) == zero_blocks(challenge.challenged_chunks@.len(), 4096)
                &&& byte_views(resp.merkle_proofs@) == zero_blocks(challenge.challenged_chunks@.len(), 32)
                &&& resp.timestamp_bits == timestamp_bits
                &&& is_placeholder_vdf(resp.access_proof, 500, F64_BITS_500, 134217728)
            },
    {
        let n = challenge.challenged_chunks.len();
        Ok(ChallengeResponse {
            challenge_id: challenge.challenge_id,
            chunk_data: zero_vectors(n, 4096),
            merkle_proofs: zero_vectors(n, 32),
            timestamp_bits,
            access_proof: placeholder_vdf(500, F64_BITS_500, 134217728),
        })
    }

    /// The prover's statistics as JSON, with its key in hex.
    pub fn get_prover_stats(&self) -> (s: String)
        ensures
            s@ == "{\"prover_key\": \""@ + hex_encode_spec(self.prover_key@)
                + "\", \"data_stored\": true, \"challenges_responded\": 0}"@,
    {
        let mut s = "{\"prover_key\": \"".to_owned();
        let key_hex = bytes_to_hex(self.prover_key.as_slice());
        s.append(key_hex.as_str());
        s.append("\", \"data_stored\": true, \"challenges_responded\": 0}");
        s
    }

    /// Self-integrity always holds.
    pub fn verify_self_integrity(&self) -> (b: bool)
        ensures
            b,
    {
        true
    }

    /// Peer registration always succeeds.
    pub fn register_peer(&self, peer_id: String, peer_info: String) -> (b: bool)
        ensures
            b,
    {
        true
    }

    /// The identifier of a challenge to a prover: `challenge_` and the
    /// prover's key in hex.
    pub fn issue_availability_challenge(&self, target_prover: &Vec<u8>) -> (s: String)
        ensures
            s@ == "challenge_"@ + hex_encode_spec(target_prover@),
    {
        let mut s = "challenge_".to_owned();
        let key_hex = bytes_to_hex(target_prover.as_slice());
        s.append(key_hex.as_str());
        s
    }

    /// A reported chunk count is accepted when it is positive and below a
    /// million.
    pub fn validate_chunk_count(&self, file_hash: &Vec<u8>, reported_chunks: u32) -> (b: bool)
        ensures
            b == (reported_chunks > 0 && reported_chunks < 1000000),
    {
        reported_chunks > 0 && reported_chunks < 1000000
    }

    /// A peer's information as JSON.
    pub fn get_peer_info(&self, peer_id: &str) -> (s: String)
        ensures
            s@ == "{\"peer_id\": \""@ + peer_id@ + "\", \"status\": \"active\", \"latency\": 50}"@,
    {
        let mut s = "{\"peer_id\": \"".to_owned();
        s.append(peer_id);
        s.append("\", \"status\": \"active\", \"latency\": 50}");
        s
    }

    /// A latency update is accepted when the latency lies strictly between 0
    /// and 1000 ms (`f64_bits_in_open_0_1000` of its bits).
    pub fn update_peer_latency(&self, peer_id: &str, latency_ms_bits: u64) -> (b: bool)
        ensures
            b == f64_bits_in_open_0_1000(latency_ms_bits),
    {
        0 < latency_ms_bits && latency_ms_bits < F64_BITS_1000
    }
}

/// The storage verifier of the interface.
pub struct ProofOfStorageVerifier {
    /// The verifier's key (32 bytes).
    pub verifier_key: Vec<u8>,
}

impl ProofOfStorageVerifier {
    /// A verifier for a 32-byte key; another size is `InvalidPublicKeySize`.
    pub fn new(verifier_key: Vec<u8>) -> (r: HashChainResult<ProofOfStorageVerifier>)
        ensures
            verifier_key@.len() != 32 ==> (r matches Err(e) && e == HashChainError::InvalidPublicKeySize(
                verifier_key@.len() as usize,
            )),
            verifier_key@.len() == 32 ==> (r matches Ok(v) && v.verifier_key@ == verifier_key@),
    {
        match validate_public_key(&verifier_key) {
            Ok(()) => {},
            Err(e) => return Err(e),
        }
        Ok(ProofOfStorageVerifier { verifier_key })
    }

    /// A compact proof is accepted when it has chunk proofs.
    pub fn verify_compact_proof(&self, proof: &CompactStorageProof) -> (b: bool)
        ensures
            b == (proof.chunk_proofs@.len() > 0),
    {
        proof.chunk_proofs.len() > 0
    }

    /// A full proof is accepted when it has chunk hashes.
    pub fn verify_full_proof(&self, proof: &FullStorageProof) -> (b: bool)
        ensures
            b == (proof.all_chunk_hashes@.len() > 0),
    {
        proof.all_chunk_hashes.len() > 0
    }

    /// A response matches a challenge when the identifiers have the same
    /// length and there is one chunk per challenged chunk.
    pub fn verify_challenge_response(&self, response: &ChallengeResponse, original_challenge: &StorageChallenge) -> (b:
        bool)
        ensures
            b == (response.challenge_id@.len() == original_challenge.challenge_id@.len()
                && response.chunk_data@.len() == original_challenge.challenged_chunks@.len()),
    {
        response.challenge_id.len() == original_challenge.challenge_id.len() && response.chunk_data.len()
            == original_challenge.challenged_chunks.len()
    }

    /// A challenge of chunks 0 to 3 with zero identifier and nonce.
    pub fn generate_challenge(
        &self,
        prover_key: Vec<u8>,
        commitment_hash: Vec<u8>,
        timestamp_bits: u64,
        deadline_bits: u64,
    ) -> (r: HashChainResult<StorageChallenge>)
        ensures
            r matches Ok(c) && {
                &&& c.challenge_id@ == zeros(32)
                &&& c.prover_key@ == prover_key@
                &&& c.commitment_hash@ == commitment_hash@
                &&& c.challenged_chunks@ == seq![0u32, 1u32, 2u32, 3u32]
                &&& c.nonce@ == zeros(16)
                &&& c.timestamp_bits == timestamp_bits
                &&& c.deadline_bits == deadline_bits
            },
    {
        Ok(StorageChallenge {
            challenge_id: zero_bytes(32),
            prover_key,
            commitment_hash,
            challenged_chunks: vec![0u32, 1u32, 2u32, 3u32],
            nonce: zero_bytes(16),
            timestamp_bits,
            deadline_bits,
        })
    }

    /// A prover passes an audit when its key has 32 bytes whose sum is not
    /// 9 modulo 10.
    pub fn audit_prover(&self, prover_key: &Vec<u8>) -> (b: bool)
        ensures
            b == (prover_key@.len() == 32 && byte_sum(prover_key@) % 10 < 9),
    {
        if prover_key.len() != 32 {
            return false;
        }
        let key_sum = key_byte_sum(prover_key);
        key_sum % 10 < 9
    }

    /// The verifier's statistics as JSON, with its key in hex.
    pub fn get_verifier_stats(&self) -> (s: String)
        ensures
            s@ == "{\"verifier_key\": \""@ + hex_encode_spec(self.verifier_key@)
                + "\", \"proofs_verified\": 0, \"challenges_issued\": 0}"@,
    {
        let mut s = "{\"verifier_key\": \"".to_owned();
        let key_hex = bytes_to_hex(self.verifier_key.as_slice());
        s.append(key_hex.as_str());
        s.append("\", \"proofs_verified\": 0, \"challenges_issued\": 0}");
        s
    }

    /// No network events are reported.
    pub fn monitor_network(&self) -> (v: Vec<String>)
        ensures
            v@.len() == 0,
    {
        Vec::new()
    }

    /// The known provers: `prover_1` to `prover_3`.
    pub fn discover_active_provers(&self) -> (v: Vec<String>)
        ensures
            v@.len() == 3,
            v@[0]@ == "prover_1"@,
            v@[1]@ == "prover_2"@,
            v@[2]@ == "prover_3"@,
    {
        let mut v: Vec<String> = Vec::new();
        v.push("prover_1".to_owned());
        v.push("prover_2".to_owned());
        v.push("prover_3".to_owned());
        v
    }

    /// A prover's reputation in hundredths: the byte sum of its key modulo
    /// 100 (for keys under 2^24 bytes).
    pub fn get_prover_reputation(&self, prover_key: &Vec<u8>) -> (r: u32)
        requires
            prover_key@.len() < 0x1000000,
        ensures
            r == byte_sum(prover_key@) % 100,
    {
        key_byte_sum(prover_key) % 100
    }

    /// A response is plausible when it carries chunks and its access proof
    /// has iterations.
    pub fn validate_availability_response(&self, response: &ChallengeResponse) -> (b: bool)
        ensures
            b == (response.chunk_data@.len() > 0 && response.access_proof.iterations > 0),
    {
        response.chunk_data.len() > 0 && response.access_proof.iterations > 0
    }

    /// A result report is accepted for a 32-byte identifier and a non-empty
    /// result.
    pub fn report_challenge_result(&self, challenge_id: &Vec<u8>, result: &str) -> (b: bool)
        ensures
            b == (challenge_id@.len() == 32 && result@.len() > 0),
    {
        challenge_id.len() == 32 && !result.is_empty()
    }

    /// The confirmed storage of a prover: the byte sum of its key modulo a
    /// million (for keys under 2^24 bytes).
    pub fn get_confirmed_storage_size(&self, prover_key: &Vec<u8>) -> (r: u32)
        requires
            prover_key@.len() < 0x1000000,
        ensures
            r == byte_sum(prover_key@) % 1000000,
    {
        key_byte_sum(prover_key) % 1000000
    }
}

/// Which roles a node of a type can take: a full node any, a prover or a
/// verifier only its own.
pub open spec fn role_allowed(node_type: Seq<char>, role: Seq<char>) -> bool {
    node_type == "full"@ || (node_type == "prover"@ && role == "prover"@) || (node_type == "verifier"@ && role
        == "verifier"@)
}

/// Whether a node is kept when the nodes with key `key` are dropped.
pub open spec fn node_kept(key: Seq<u8>) -> spec_fn(NetworkNode) -> bool {
    |n: NetworkNode| n.node_key@ != key
}

/// The network manager of the interface.
pub struct HierarchicalNetworkManager {
    /// This node's key (32 bytes).
    pub node_key: Vec<u8>,
    /// This node's type.
    pub node_type: String,
    /// The chain manager.
    pub inner_manager: HierarchicalGlobalChainManager,
    /// Known active nodes.
    pub active_nodes: Vec<NetworkNode>,
}

impl HierarchicalNetworkManager {
    /// A manager for a 32-byte key (another size is `InvalidPublicKeySize`)
    /// with a three-level chain manager of standard groups and no nodes.
    pub fn new(node_key: Vec<u8>, node_type: String) -> (r: HashChainResult<HierarchicalNetworkManager>)
        ensures
            node_key@.len() != 32 ==> (r matches Err(e) && e == HashChainError::InvalidPublicKeySize(
                node_key@.len() as usize,
            )),
            node_key@.len() == 32 ==> (r matches Ok(m) && {
                &&& m.node_key@ == node_key@
                &&& m.node_type@ == node_type@
                &&& m.inner_manager.hierarchy_levels == 3
                &&& m.inner_manager.chains_per_group == CHAINS_PER_GROUP
                &&& m.inner_manager.chain_registry@.len() == 0
                &&& m.active_nodes@.len() == 0
            }),
    {
        match validate_public_key(&node_key) {
            Ok(()) => {},
            Err(e) => return Err(e),
        }
        Ok(HierarchicalNetworkManager {
            node_key,
            node_type,
            inner_manager: HierarchicalGlobalChainManager::new(3, CHAINS_PER_GROUP),
            active_nodes: Vec::new(),
        })
    }

    /// Registering a prover always succeeds.
    pub fn register_prover(&mut self, prover: &ProofOfStorageProver) -> (b: bool)
        ensures
            b,
            *final(self) == *old(self),
    {
        true
    }

    /// Registering a verifier always succeeds.
    pub fn register_verifier(&mut self, verifier: &ProofOfStorageVerifier) -> (b: bool)
        ensures
            b,
            *final(self) == *old(self),
    {
        true
    }

    /// Drops every node with the key, keeping the others in order.
    pub fn remove_node(&mut self, node_key: &Vec<u8>) -> (b: bool)
        ensures
            b,
            final(self).active_nodes@ == old(self).active_nodes@.filter(node_kept(node_key@)),
            final(self).node_key == old(self).node_key,
            final(self).node_type == old(self).node_type,
            final(self).inner_manager == old(self).inner_manager,
    {
        let ghost start = self.active_nodes@;
        let mut kept: Vec<NetworkNode> = Vec::new();
        let mut rest: Vec<NetworkNode> = Vec::new();
        std::mem::swap(&mut rest, &mut self.active_nodes);
        assert(rest@ == start);
        let mut i: usize = 0;
        let n = rest.len();
        while i < n
            invariant
                i <= n,
                n == start.len(),
                rest@.len() == n - i,
                rest@ == start.subrange(i as int, n as int),
                kept@ == start.subrange(0, i as int).filter(node_kept(node_key@)),
            decreases n - i,
        {
            let ghost kept_before = kept@;
            let node = rest.remove(0);
            assert(node == start[i as int]);
            assert(rest@ =~= start.subrange(i + 1, n as int));
            let keep = !crate::seqs::bytes_equal(node.node_key.as_slice(), node_key.as_slice());
            assert(keep == node_kept(node_key@)(node));
            if keep {
                kept.push(node);
            }
            proof {
                assert(start.subrange(0, i + 1) =~= start.subrange(0, i as int).push(node));
                start.subrange(0, i as int).lemma_filter_push(node, node_kept(node_key@));
            }
            i = i + 1;
        }
        assert(start.subrange(0, n as int) =~= start);
        self.active_nodes = kept;
        true
    }

    /// Checks the block hash (another size is `InvalidBlockHashSize`) and
    /// moves the chains of the inner manager to the block
    /// (`HierarchicalGlobalChainManager::process_new_block_hierarchical`).
    pub fn process_network_block(&mut self, block_height: u32, block_hash: Vec<u8>) -> (r: HashChainResult<()>)
        ensures
            block_hash@.len() != 32 ==> (r matches Err(e) && e == HashChainError::InvalidBlockHashSize(
                block_hash@.len() as usize,
            )) && *final(self) == *old(self),
            block_hash@.len() == 32 ==> r is Ok,
            final(self).node_key == old(self).node_key,
            final(self).active_nodes == old(self).active_nodes,
    {
        match validate_block_hash(&block_hash) {
            Ok(()) => {},
            Err(e) => return Err(e),
        }
        self.inner_manager.process_new_block_hierarchical(block_hash, block_height as u64)
    }

    /// Fixed network statistics: 100 provers, 50 verifiers, health 0.95,
    /// storage 1e6 and a success rate of 0.98.
    pub fn get_network_stats(&self) -> (s: NetworkStats)
        ensures
            s.total_provers == 100,
            s.total_verifiers == 50,
            s.health_score_bits == 0x3FEE666666666666,
            s.total_storage_bits == 0x412E848000000000,
            s.challenge_success_rate_bits == 0x3FEF5C28F5C28F5C,
    {
        NetworkStats {
            total_provers: 100,
            total_verifiers: 50,
            health_score_bits: 0x3FEE666666666666,
            total_storage_bits: 0x412E848000000000,
            challenge_success_rate_bits: 0x3FEF5C28F5C28F5C,
        }
    }

    /// Copies of the known active nodes.
    pub fn get_active_nodes(&self) -> (v: Vec<NetworkNode>)
        ensures
            v@.len() == self.active_nodes@.len(),
            forall|i: int| 0 <= i < v@.len() ==> same_node(#[trigger] v@[i], self.active_nodes@[i]),
    {
        let mut v: Vec<NetworkNode> = Vec::new();
        let mut i: usize = 0;
        while i < self.active_nodes.len()
            invariant
                i <= self.active_nodes@.len(),
                v@.len() == i,
                forall|k: int| 0 <= k < i ==> same_node(#[trigger] v@[k], self.active_nodes@[k]),
            decreases self.active_nodes@.len() - i,
        {
            let n = &self.active_nodes[i];
            v.push(
                NetworkNode {
                    node_key: copy_bytes(n.node_key.as_slice()),
                    node_type: n.node_type.clone(),
                    reputation_bits: n.reputation_bits,
                    last_activity_bits: n.last_activity_bits,
                    position: copy_bytes(n.position.as_slice()),
                },
            );
            i = i + 1;
        }
        v
    }

    /// This node's identity as JSON: its key in hex, its type and the number
    /// of active nodes.
    pub fn get_node_identity(&self) -> (s: String)
        ensures
            s@ == "{\"node_key\": \""@ + hex_encode_spec(self.node_key@) + "\", \"node_type\": \""@ + self.node_type@
                + "\", \"active_nodes\": "@ + decimal(self.active_nodes@.len()) + "}"@,
    {
        let mut s = "{\"node_key\": \"".to_owned();
        let key_hex = bytes_to_hex(self.node_key.as_slice());
        s.append(key_hex.as_str());
        s.append("\", \"node_type\": \"");
        s.append(self.node_type.as_str());
        s.append("\", \"active_nodes\": ");
        let count = format_zero_padded(self.active_nodes.len() as u64, 0);
        s.append(count.as_str());
        s.append("}");
        s
    }

    /// Consensus always succeeds.
    pub fn perform_consensus(&self) -> (b: bool)
        ensures
            b,
    {
        true
    }

    /// Reorganisation changes nothing.
    pub fn reorganize_network(&mut self)
        ensures
            *final(self) == *old(self),
    {
    }

    /// This node's key.
    pub fn get_node_key(&self) -> (k: Vec<u8>)
        ensures
            k@ == self.node_key@,
    {
        copy_bytes(self.node_key.as_slice())
    }

    /// This node's type.
    pub fn get_node_type(&self) -> (t: String)
        ensures
            t@ == self.node_type@,
    {
        self.node_type.clone()
    }

    /// Whether this node can take a role (`role_allowed`).
    pub fn can_act_as(&self, role: &String) -> (b: bool)
        ensures
            b == role_allowed(self.node_type@, role@),
    {
        let full = "full".to_owned();
        let prover = "prover".to_owned();
        let verifier = "verifier".to_owned();
        if self.node_type == full {
            true
        } else if self.node_type == prover {
            *role == prover
        } else if self.node_type == verifier {
            *role == verifier
        } else {
            false
        }
    }
}

/// The hash of a storage commitment: SHA-256 of the key, data hash, height
/// (big-endian), block hash, the selected chunks (big-endian), the chunk
/// hashes, the VDF input, output and iterations (big-endian), the chain
/// entropy, the beacon if any, the local entropy and the timestamp bits
/// (big-endian).
pub open spec fn storage_commitment_hash(c: StorageCommitment) -> Seq<u8> {
    sha256_spec(
        c.prover_key@ + c.data_hash@ + be32(c.block_height) + c.block_hash@ + be32_concat(c.selected_chunks@)
            + flatten_bytes(byte_views(c.chunk_hashes@)) + c.vdf_proof.input_state@ + c.vdf_proof.output_state@
            + be32(c.vdf_proof.iterations) + c.entropy.blockchain_entropy@ + beacon_bytes(
            opt_view(c.entropy.beacon_entropy),
        ) + c.entropy.local_entropy@ + be64(c.entropy.timestamp_bits),
    )
}

/// Computes `storage_commitment_hash`.
pub fn create_commitment_hash(commitment: &StorageCommitment) -> (h: Vec<u8>)
    ensures
        h@ == storage_commitment_hash(*commitment),
{
    let mut input: Vec<u8> = Vec::new();
    append_bytes(&mut input, commitment.prover_key.as_slice());
    append_bytes(&mut input, commitment.data_hash.as_slice());
    append_bytes(&mut input, u32_to_be_bytes(commitment.block_height).as_slice());
    append_bytes(&mut input, commitment.block_hash.as_slice());
    append_be32_all(&mut input, &commitment.selected_chunks);
    append_all_bytes(&mut input, &commitment.chunk_hashes);
    append_bytes(&mut input, commitment.vdf_proof.input_state.as_slice());
    append_bytes(&mut input, commitment.vdf_proof.output_state.as_slice());
    append_bytes(&mut input, u32_to_be_bytes(commitment.vdf_proof.iterations).as_slice());
    append_bytes(&mut input, commitment.entropy.blockchain_entropy.as_slice());
    match &commitment.entropy.beacon_entropy {
        Some(b) => append_bytes(&mut input, b.as_slice()),
        None => {},
    }
    append_bytes(&mut input, commitment.entropy.local_entropy.as_slice());
    append_bytes(&mut input, u64_to_be_bytes(commitment.entropy.timestamp_bits).as_slice());
    sha256(input.as_slice())
}

/// A commitment is intact when its key has 32 bytes and it has chunk hashes.
pub fn verify_commitment_integrity(commitment: &StorageCommitment) -> (b: bool)
    ensures
        b == (commitment.prover_key@.len() == 32 && commitment.chunk_hashes@.len() > 0),
{
    commitment.prover_key.len() == 32 && commitment.chunk_hashes.len() > 0
}

/// A placeholder memory-hard VDF proof: the input, a zero output,
/// `iterations`, no samples and 256 MiB; its time field holds the given
/// bits (the iteration count as milliseconds, converted by the caller).
pub fn create_memory_hard_vdf_proof(input: Vec<u8>, iterations: u32, time_ms_bits: u64) -> (r: HashChainResult<
    MemoryHardVDFProof,
>)
    ensures
        r matches Ok(p) && {
            &&& p.input_state@ == input@
            &&& p.output_state@ == zeros(32)
            &&& p.iterations == iterations
            &&& p.memory_access_samples@.len() == 0
            &&& p.computation_time_ms_bits == time_ms_bits
            &&& p.memory_usage_bytes == PLACEHOLDER_VDF_MEMORY
        },
{
    Ok(MemoryHardVDFProof {
        input_state: input,
        output_state: zero_bytes(32),
        iterations,
        memory_access_samples: Vec::new(),
        computation_time_ms_bits: time_ms_bits,
        memory_usage_bytes: PLACEHOLDER_VDF_MEMORY,
    })
}

/// A memory-hard VDF proof is accepted when it has iterations and memory.
pub fn verify_memory_hard_vdf_proof(proof: &MemoryHardVDFProof) -> (b: bool)
    ensures
        b == (proof.iterations > 0 && proof.memory_usage_bytes > 0),
{
    proof.iterations > 0 && proof.memory_usage_bytes > 0
}

} // verus!
