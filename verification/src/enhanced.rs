//! Enhanced commitments: the generator that binds encoded chunks, a
//! memory-hard VDF run, availability responses and a network latency proof
//! into one physical-access commitment, and its verification.
use vstd::prelude::*;
use vstd::string::StringSliceAdditionalSpecFns;

use crate::availability::{
    authenticity_proof_spec, challenge_chunk_spec, challenge_recorded, challenge_id_bytes, challenge_nonce_spec, challenged_spec,
    expired_ids, registered_chunks, string_views, unexpired, REWARD_AMOUNT_BITS, AvailabilityChallenger, AvailabilityProver,
};
use crate::crypto::hex_encode_spec;
use crate::bytes::{be64, u64_to_be_bytes};
use crate::commitments::{
    create_vdf_input, enhanced_commitment_hash_spec, enhanced_ownership_hash, encoding_params_spec,
    generate_enhanced_ownership_commitment, read_simulated_chunk, simulated_chunk, vdf_input_spec,
    verify_availability_responses, verify_enhanced_commitment_hash,
};
use crate::consts::{CHUNK_SIZE_BYTES, MEMORY_HARD_VDF_MEMORY};
use crate::crypto::{sha256, sha256_spec};
use crate::encoding::{encode_chunk_spec, FileEncoder};
use crate::errors::{HashChainError, HashChainResult};
use crate::memory_hard::{mh_initialized, mh_run, vdf_proof_valid, MemoryHardVDF, MIN_MEMORY_SIZE};
use crate::seqs::{append_all_bytes, append_bytes, byte_views, flatten_bytes, u32s_equal};
use crate::types::{
    AvailabilityChallenge, AvailabilityResponse, EnhancedOwnershipCommitment, MemoryHardVDFProof, MultiSourceEntropy,
};

verus! {

/// One latency measurement to a peer. Times and latencies are bit patterns
/// of `f64` values.
pub struct PeerLatencyMeasurement {
    /// Peer identifier.
    pub peer_id: Vec<u8>,
    /// Latency in milliseconds.
    pub latency_ms_bits: u64,
    /// Samples taken.
    pub sample_count: u32,
    /// Measurement time.
    pub timestamp_bits: u64,
}

/// A proof of network position from peer latencies. Times, latencies and the
/// variance are bit patterns of `f64` values.
pub struct NetworkLatencyProof {
    /// The measurements.
    pub peer_latencies: Vec<PeerLatencyMeasurement>,
    /// Average latency in milliseconds.
    pub average_latency_ms_bits: u64,
    /// Variance of the latencies.
    pub latency_variance_bits: u64,
    /// Measurement time.
    pub measurement_time_bits: u64,
    /// Location proof hash.
    pub location_proof: Option<Vec<u8>>,
}

/// The outcome of an enhanced chunk selection.
pub struct EnhancedChunkSelectionResult {
    /// The selected chunk indices.
    pub selected_indices: Vec<u32>,
    /// Version of the selection algorithm.
    pub algorithm_version: u32,
    /// Chunk count selected from (bit pattern of an `f64`).
    pub total_chunks_bits: u64,
    /// Entropy the selection used.
    pub entropy: MultiSourceEntropy,
    /// Hash that verifies the selection.
    pub verification_hash: Vec<u8>,
    /// Proof that the selection was unpredictable.
    pub unpredictability_proof: Vec<u8>,
}

/// A physical-access commitment with every security feature.
pub struct EnhancedPhysicalAccessCommitment {
    /// Block height (bit pattern of an `f64`).
    pub block_height_bits: u64,
    /// Previous commitment.
    pub previous_commitment: Vec<u8>,
    /// Block hash.
    pub block_hash: Vec<u8>,
    /// Entropy.
    pub entropy: MultiSourceEntropy,
    /// Selected chunks.
    pub selected_chunks: Vec<u32>,
    /// Hashes of the encoded chunks.
    pub chunk_hashes: Vec<Vec<u8>>,
    /// Memory-hard VDF proof.
    pub vdf_proof: MemoryHardVDFProof,
    /// Availability responses.
    pub availability_responses: Vec<AvailabilityResponse>,
    /// Network latency proof.
    pub network_latency_proof: NetworkLatencyProof,
    /// Commitment hash.
    pub commitment_hash: Vec<u8>,
}

/// A request to generate an enhanced commitment.
pub struct EnhancedCommitmentRequest {
    /// Prover key.
    pub prover_key: Vec<u8>,
    /// Block height (bit pattern of an `f64`).
    pub block_height_bits: u64,
    /// Previous commitment.
    pub previous_commitment: Vec<u8>,
    /// Entropy.
    pub entropy: MultiSourceEntropy,
    /// Path of the chain's data.
    pub chain_data_path: String,
    /// The chunk selection for the block.
    pub selection: EnhancedChunkSelectionResult,
    /// Iterations of the VDF run.
    pub vdf_iterations: u32,
    /// The measured network latency proof.
    pub network_latency_proof: NetworkLatencyProof,
}

/// The hash of an encoded chunk of a commitment: SHA-256 of the stand-in
/// chunk encoded for the prover.
pub open spec fn enhanced_chunk_hash(prover_key: Seq<u8>, chunk_index: u32) -> Seq<u8> {
    sha256_spec(encode_chunk_spec(prover_key, simulated_chunk(chunk_index), chunk_index))
}

/// The chunk hashes of a selection.
pub open spec fn enhanced_chunk_hashes(prover_key: Seq<u8>, selected: Seq<u32>) -> Seq<Seq<u8>> {
    selected.map_values(|i: u32| enhanced_chunk_hash(prover_key, i))
}

/// What `verify_enhanced_physical_access_commitment` accepts: the selection
/// is the expected one, the VDF proof is valid, every availability response
/// has a full chunk and a 32-byte proof, the latency proof is valid (judged
/// by the caller), and the hash is `enhanced_commitment_hash_spec` of the
/// commitment's fields with the expected selection's verification hash and
/// unpredictability proof: the same input its generation hashed.
pub open spec fn enhanced_commitment_valid(
    c: EnhancedPhysicalAccessCommitment,
    expected_selection: EnhancedChunkSelectionResult,
    vdf_time_plausible: bool,
    latency_proof_valid: bool,
) -> bool {
    &&& c.selected_chunks@ == expected_selection.selected_indices@
    &&& vdf_proof_valid(c.vdf_proof, vdf_time_plausible)
    &&& forall|i: int|
        0 <= i < c.availability_responses@.len() ==> #[trigger] c.availability_responses@[i].chunk_data@.len()
            == CHUNK_SIZE_BYTES && c.availability_responses@[i].authenticity_proof@.len() == 32
    &&& latency_proof_valid
    &&& c.commitment_hash@ == enhanced_commitment_hash_spec(
        c.block_height_bits,
        c.previous_commitment@,
        c.entropy.combined_hash@,
        expected_selection.verification_hash@,
        expected_selection.unpredictability_proof@,
        byte_views(c.chunk_hashes@),
        c.vdf_proof.output_state@,
        c.network_latency_proof.average_latency_ms_bits,
    )
}

/// A commitment made by `generate_enhanced_physical_access_commitment` from a
/// selection (the clauses below are what that function ensures) is accepted
/// by `verify_enhanced_physical_access_commitment` with the same selection
/// expected, whenever its VDF proof checks and its latency proof is valid:
/// verification rehashes exactly what generation hashed.
pub proof fn lemma_generated_commitment_verifies(
    c: EnhancedPhysicalAccessCommitment,
    selection: EnhancedChunkSelectionResult,
    previous_commitment: Seq<u8>,
    entropy: MultiSourceEntropy,
    latency_proof: NetworkLatencyProof,
    vdf_time_plausible: bool,
)
    requires
        c.previous_commitment@ == previous_commitment,
        c.entropy == entropy,
        c.selected_chunks@ == selection.selected_indices@,
        c.availability_responses@.len() == 0,
        c.network_latency_proof == latency_proof,
        c.commitment_hash@ == enhanced_commitment_hash_spec(
            c.block_height_bits,
            previous_commitment,
            entropy.combined_hash@,
            selection.verification_hash@,
            selection.unpredictability_proof@,
            byte_views(c.chunk_hashes@),
            c.vdf_proof.output_state@,
            latency_proof.average_latency_ms_bits,
        ),
        vdf_proof_valid(c.vdf_proof, vdf_time_plausible),
    ensures
        enhanced_commitment_valid(c, selection, vdf_time_plausible, true),
{
}

/// Generates and checks enhanced commitments for one prover.
pub struct EnhancedCommitmentGenerator {
    file_encoder: FileEncoder,
    memory_vdf: MemoryHardVDF,
    availability_challenger: AvailabilityChallenger,
    availability_prover: AvailabilityProver,
}

impl EnhancedCommitmentGenerator {
    /// The prover key the generator encodes for.
    pub closed spec fn key(&self) -> Seq<u8> {
        self.file_encoder.key()
    }

    /// The memory of the generator's VDF.
    pub closed spec fn vdf_memory(&self) -> Seq<u8> {
        self.memory_vdf.memory()
    }

    /// The generator's VDF is well formed.
    pub closed spec fn wf(&self) -> bool {
        self.memory_vdf.wf()
    }

    /// The challenger.
    pub closed spec fn challenger(&self) -> AvailabilityChallenger {
        self.availability_challenger
    }

    /// The availability prover.
    pub closed spec fn prover(&self) -> AvailabilityProver {
        self.availability_prover
    }

    /// A generator for a 32-byte prover key (another size is an argument
    /// error) with the standard 256 MiB VDF and no challenge or chain.
    pub fn new(prover_key: Vec<u8>) -> (r: HashChainResult<EnhancedCommitmentGenerator>)
        ensures
            prover_key@.len() != 32 ==> (r matches Err(e) && e is InvalidArgument),
            prover_key@.len() == 32 ==> (r matches Ok(g) && {
                &&& g.wf()
                &&& g.key() == prover_key@
                &&& g.vdf_memory().len() == MEMORY_HARD_VDF_MEMORY
                &&& g.challenger().active_challenges@.len() == 0
                &&& g.prover().chain_data@.len() == 0
            }),
    {
        Self::with_memory(prover_key, MEMORY_HARD_VDF_MEMORY)
    }

    /// A generator whose VDF has `memory_size` bytes: a key that is not 32
    /// bytes, then a memory under 1 MiB, is an argument error.
    pub fn with_memory(prover_key: Vec<u8>, memory_size: usize) -> (r: HashChainResult<EnhancedCommitmentGenerator>)
        ensures
            prover_key@.len() != 32 ==> (r matches Err(e) && e is InvalidArgument),
            prover_key@.len() == 32 && memory_size < MIN_MEMORY_SIZE ==> (r matches Err(e) && e is InvalidArgument),
            prover_key@.len() == 32 && memory_size >= MIN_MEMORY_SIZE ==> (r matches Ok(g) && {
                &&& g.wf()
                &&& g.key() == prover_key@
                &&& g.vdf_memory().len() == memory_size
                &&& g.challenger().active_challenges@.len() == 0
                &&& g.prover().chain_data@.len() == 0
            }),
    {
        let file_encoder = match FileEncoder::new(prover_key) {
            Ok(f) => f,
            Err(e) => return Err(e),
        };
        let memory_vdf = match MemoryHardVDF::new(memory_size) {
            Ok(v) => v,
            Err(e) => return Err(e),
        };
        Ok(EnhancedCommitmentGenerator {
            file_encoder,
            memory_vdf,
            availability_challenger: AvailabilityChallenger::new(),
            availability_prover: AvailabilityProver::new(),
        })
    }

    /// The enhanced ownership commitment of an encoding
    /// (`generate_enhanced_ownership_commitment`).
    pub fn generate_enhanced_ownership_commitment(
        &self,
        original_data_hash: Vec<u8>,
        encoded_data_hash: Vec<u8>,
        prover_key: Vec<u8>,
    ) -> (r: HashChainResult<EnhancedOwnershipCommitment>)
        ensures
            r matches Ok(c) && {
                &&& c.public_key@ == prover_key@
                &&& c.encoded_data_hash@ == encoded_data_hash@
                &&& c.original_data_hash@ == original_data_hash@
                &&& c.encoding_params@ == encoding_params_spec(prover_key@)
                &&& c.commitment_hash@ == enhanced_ownership_hash(
                    prover_key@,
                    encoded_data_hash@,
                    original_data_hash@,
                )
            },
    {
        generate_enhanced_ownership_commitment(original_data_hash, encoded_data_hash, prover_key)
    }

    /// The hashes of the encoded stand-in chunks of a selection.
    fn encoded_chunk_hashes(&self, selected: &Vec<u32>) -> (r: Vec<Vec<u8>>)
        ensures
            byte_views(r@) == enhanced_chunk_hashes(self.key(), selected@),
    {
        let mut hashes: Vec<Vec<u8>> = Vec::new();
        let mut i: usize = 0;
        while i < selected.len()
            invariant
                i <= selected@.len(),
                hashes@.len() == i,
                forall|j: int| 0 <= j < i ==> #[trigger] hashes@[j]@ == enhanced_chunk_hash(self.key(), selected@[j]),
            decreases selected@.len() - i,
        {
            let index = selected[i];
            let chunk = match read_simulated_chunk(index) {
                Ok(c) => c,
                Err(_) => {
                    proof {
                        assert(false);
                    }
                    return hashes;
                },
            };
            assert(chunk@ =~= simulated_chunk(index)) by {
                assert forall|k: int| 0 <= k < CHUNK_SIZE_BYTES implies #[trigger] chunk@[k] == simulated_chunk(
                    index,
                )[k] by {
                    vstd::arithmetic::div_mod::lemma_mod_mod(index as int + k, 256, 0x1000000);
                }
            }
            let encoded = match self.file_encoder.encode_chunk(chunk.as_slice(), index) {
                Ok(e) => e,
                Err(_) => {
                    proof {
                        assert(false);
                    }
                    return hashes;
                },
            };
            let h = sha256(encoded.as_slice());
            hashes.push(h);
            i = i + 1;
        }
        assert(byte_views(hashes@) =~= enhanced_chunk_hashes(self.key(), selected@));
        hashes
    }

    /// Generates the enhanced physical-access commitment of a block: the
    /// stand-in chunks of the selection are encoded for the prover and
    /// hashed, the VDF runs `vdf_iterations` iterations from the VDF input of
    /// the previous commitment, the combined entropy hash and the chunk
    /// hashes, no availability response is attached, and the commitment hash
    /// is `enhanced_commitment_hash_spec`. The chunk selection and the network
    /// latency proof are made by the caller. Never fails.
    pub fn generate_enhanced_physical_access_commitment(
        &mut self,
        block_height_bits: u64,
        previous_commitment: Vec<u8>,
        entropy: MultiSourceEntropy,
        selection: EnhancedChunkSelectionResult,
        vdf_iterations: u32,
        network_latency_proof: NetworkLatencyProof,
    ) -> (r: HashChainResult<EnhancedPhysicalAccessCommitment>)
        requires
            old(self).wf(),
        ensures
            final(self).wf(),
            final(self).key() == old(self).key(),
            r matches Ok(c) && {
                let hashes = enhanced_chunk_hashes(old(self).key(), selection.selected_indices@);
                let input = vdf_input_spec(previous_commitment@, entropy.combined_hash@, hashes);
                let mem0 = mh_initialized(input, old(self).vdf_memory());
                let output = mh_run(input, mem0, vdf_iterations as nat).0;
                &&& c.block_height_bits == block_height_bits
                &&& c.previous_commitment@ == previous_commitment@
                &&& c.block_hash@ == entropy.blockchain_entropy@
                &&& c.entropy == entropy
                &&& c.selected_chunks@ == selection.selected_indices@
                &&& byte_views(c.chunk_hashes@) == hashes
                &&& c.vdf_proof.input_state@ == input
                &&& c.vdf_proof.output_state@ == output
                &&& c.vdf_proof.iterations == vdf_iterations
                &&& c.availability_responses@.len() == 0
                &&& c.network_latency_proof == network_latency_proof
                &&& c.commitment_hash@ == enhanced_commitment_hash_spec(
                    block_height_bits,
                    previous_commitment@,
                    entropy.combined_hash@,
                    selection.verification_hash@,
                    selection.unpredictability_proof@,
                    hashes,
                    output,
                    network_latency_proof.average_latency_ms_bits,
                )
            },
    {
        let chunk_hashes = self.encoded_chunk_hashes(&selection.selected_indices);
        let vdf_input = match create_vdf_input(&previous_commitment, &entropy.combined_hash, &chunk_hashes) {
            Ok(v) => v,
            Err(e) => return Err(e),
        };
        let vdf_proof = match self.memory_vdf.compute(&vdf_input, vdf_iterations) {
            Ok(p) => p,
            Err(e) => return Err(e),
        };
        let mut input: Vec<u8> = Vec::new();
        append_bytes(&mut input, u64_to_be_bytes(block_height_bits).as_slice());
        append_bytes(&mut input, previous_commitment.as_slice());
        append_bytes(&mut input, entropy.combined_hash.as_slice());
        append_bytes(&mut input, selection.verification_hash.as_slice());
        append_bytes(&mut input, selection.unpredictability_proof.as_slice());
        append_all_bytes(&mut input, &chunk_hashes);
        append_bytes(&mut input, vdf_proof.output_state.as_slice());
        append_bytes(&mut input, u64_to_be_bytes(network_latency_proof.average_latency_ms_bits).as_slice());
        append_bytes(&mut input, "enhanced_physical_access_v2".as_bytes());
        assert(input@ =~= be64(block_height_bits) + previous_commitment@ + entropy.combined_hash@
            + selection.verification_hash@ + selection.unpredictability_proof@ + flatten_bytes(
            byte_views(chunk_hashes@),
        ) + vdf_proof.output_state@ + be64(network_latency_proof.average_latency_ms_bits)
            + "enhanced_physical_access_v2".spec_bytes());
        let commitment_hash = sha256(input.as_slice());
        let block_hash = crate::seqs::copy_bytes(entropy.blockchain_entropy.as_slice());
        Ok(EnhancedPhysicalAccessCommitment {
            block_height_bits,
            previous_commitment,
            block_hash,
            entropy,
            selected_chunks: selection.selected_indices,
            chunk_hashes,
            vdf_proof,
            availability_responses: Vec::new(),
            network_latency_proof,
            commitment_hash,
        })
    }

    /// Verifies an enhanced commitment (`enhanced_commitment_valid`). The
    /// expected chunk selection, the plausibility of the VDF time and the
    /// validity of the latency proof are established by the caller.
    pub fn verify_enhanced_physical_access_commitment(
        &self,
        commitment: &EnhancedPhysicalAccessCommitment,
        expected_prover_key: &Vec<u8>,
        expected_selection: &EnhancedChunkSelectionResult,
        vdf_time_plausible: bool,
        latency_proof_valid: bool,
    ) -> (r: HashChainResult<bool>)
        ensures
            r matches Ok(b) && b == enhanced_commitment_valid(
                *commitment,
                *expected_selection,
                vdf_time_plausible,
                latency_proof_valid,
            ),
    {
        if !u32s_equal(commitment.selected_chunks.as_slice(), expected_selection.selected_indices.as_slice()) {
            return Ok(false);
        }
        if !MemoryHardVDF::verify_proof(&commitment.vdf_proof, vdf_time_plausible) {
            return Ok(false);
        }
        match verify_availability_responses(&commitment.availability_responses) {
            Ok(true) => {},
            Ok(false) => return Ok(false),
            Err(e) => return Err(e),
        }
        if !latency_proof_valid {
            return Ok(false);
        }
        verify_enhanced_commitment_hash(
            commitment.block_height_bits,
            &commitment.previous_commitment,
            &commitment.entropy.combined_hash,
            &expected_selection.verification_hash,
            &expected_selection.unpredictability_proof,
            &commitment.chunk_hashes,
            &commitment.vdf_proof.output_state,
            commitment.network_latency_proof.average_latency_ms_bits,
            &commitment.commitment_hash,
        )
    }

    /// Issues a challenge to a chain through the challenger, as challenger
    /// `[1; 32]` (`AvailabilityChallenger::create_challenge`).
    pub fn issue_availability_challenge(
        &mut self,
        chain_id: Vec<u8>,
        total_chunks: u32,
        block_height: u64,
        challenge_time_bits: u64,
        deadline_bits: u64,
    ) -> (r: HashChainResult<Option<AvailabilityChallenge>>)
        requires
            total_chunks > 0,
        ensures
            final(self).wf() == old(self).wf(),
            final(self).key() == old(self).key(),
            final(self).vdf_memory() == old(self).vdf_memory(),
            final(self).prover() == old(self).prover(),
            !challenged_spec(chain_id@, block_height) ==> (r matches Ok(None)) && final(self).challenger() == old(
                self,
            ).challenger(),
            challenged_spec(chain_id@, block_height) ==> (r matches Ok(Some(c)) && {
                &&& c.chain_id@ == chain_id@
                &&& c.chunk_index == challenge_chunk_spec(chain_id@, total_chunks, block_height)
                &&& c.challenge_nonce@ == challenge_nonce_spec(chain_id@, c.chunk_index, block_height)
                &&& c.challenger_id@ == Seq::new(32, |i: int| 1u8)
                &&& c.challenge_time_bits == challenge_time_bits
                &&& c.deadline_bits == deadline_bits
                &&& c.reward_amount_bits == REWARD_AMOUNT_BITS
                &&& challenge_recorded(
                    old(self).challenger().active_challenges@,
                    final(self).challenger().active_challenges@,
                    c,
                )
            }),
    {
        let challenger_id: Vec<u8> = vec![1u8; 32];
        assert(challenger_id@ =~= Seq::new(32, |i: int| 1u8));
        self.availability_challenger.create_challenge(
            chain_id,
            total_chunks,
            challenger_id,
            block_height,
            challenge_time_bits,
            deadline_bits,
        )
    }

    /// Answers a challenge through the availability prover with the chunk
    /// the caller read (`AvailabilityProver::respond_to_challenge`).
    pub fn respond_to_availability_challenge(
        &self,
        challenge: &AvailabilityChallenge,
        chunk_data: Vec<u8>,
        response_time_bits: u64,
    ) -> (r: HashChainResult<AvailabilityResponse>)
        ensures
            registered_chunks(self.prover().chain_data@, hex_encode_spec(challenge.chain_id@)) is None ==> (r matches Err(
                e,
            ) && e is GenericFailure),
            registered_chunks(self.prover().chain_data@, hex_encode_spec(challenge.chain_id@)) is Some ==> (r matches Ok(
                resp,
            ) && {
                &&& resp.challenge_id@ == challenge_id_bytes(*challenge)
                &&& resp.chunk_data@ == chunk_data@
                &&& resp.response_time_bits == response_time_bits
                &&& resp.authenticity_proof@ == authenticity_proof_spec(*challenge, chunk_data@)
            }),
    {
        self.availability_prover.respond_to_challenge(challenge, chunk_data, response_time_bits)
    }

    /// Registers a chain with the availability prover.
    pub fn register_chain_for_availability(&mut self, chain_id: String, file_path: String, total_chunks: u32)
        ensures
            final(self).wf() == old(self).wf(),
            final(self).key() == old(self).key(),
            registered_chunks(final(self).prover().chain_data@, chain_id@) == Some(
                total_chunks,
            ),
            forall|other: Seq<char>|
                other != chain_id@ ==> #[trigger] registered_chunks(final(self).prover().chain_data@, other)
                    == registered_chunks(old(self).prover().chain_data@, other),
    {
        self.availability_prover.register_chain(chain_id, file_path, total_chunks)
    }

    /// Drops the challenges the caller found expired
    /// (`AvailabilityChallenger::cleanup_expired_challenges`).
    pub fn cleanup_expired_challenges(&mut self, expired: &Vec<bool>) -> (r: HashChainResult<Vec<String>>)
        requires
            expired@.len() == old(self).challenger().active_challenges@.len(),
        ensures
            final(self).wf() == old(self).wf(),
            final(self).key() == old(self).key(),
            r matches Ok(ids) && string_views(ids@) == expired_ids(
                old(self).challenger().active_challenges@,
                expired@,
                expired@.len(),
            ),
            final(self).challenger().active_challenges@ == unexpired(
                old(self).challenger().active_challenges@,
                expired@,
                expired@.len(),
            ),
    {
        self.availability_challenger.cleanup_expired_challenges(expired)
    }

    /// The challenger's statistics.
    pub fn get_challenge_stats(&self) -> (s: crate::availability::ChallengeStats)
        ensures
            s.active_challenges == self.challenger().active_challenges@.len() as u32,
            s.response_timeout_ms == self.challenger().response_timeout_ms,
    {
        self.availability_challenger.get_challenge_stats()
    }
}

/// Generates the enhanced commitment of a block with a fresh generator for
/// the prover (see `generate_enhanced_physical_access_commitment`); a prover
/// key that is not 32 bytes is an argument error.
pub fn generate_enhanced_block_commitment(request: EnhancedCommitmentRequest) -> (r: HashChainResult<
    EnhancedPhysicalAccessCommitment,
>)
    ensures
        request.prover_key@.len() != 32 ==> (r matches Err(e) && e is InvalidArgument),
        request.prover_key@.len() == 32 ==> (r matches Ok(c) && {
            let hashes = enhanced_chunk_hashes(request.prover_key@, request.selection.selected_indices@);
            &&& c.block_height_bits == request.block_height_bits
            &&& c.previous_commitment@ == request.previous_commitment@
            &&& c.selected_chunks@ == request.selection.selected_indices@
            &&& byte_views(c.chunk_hashes@) == hashes
            &&& c.vdf_proof.input_state@ == vdf_input_spec(
                request.previous_commitment@,
                request.entropy.combined_hash@,
                hashes,
            )
            &&& c.vdf_proof.iterations == request.vdf_iterations
        }),
{
    let mut generator = match EnhancedCommitmentGenerator::new(request.prover_key) {
        Ok(g) => g,
        Err(e) => return Err(e),
    };
    generator.generate_enhanced_physical_access_commitment(
        request.block_height_bits,
        request.previous_commitment,
        request.entropy,
        request.selection,
        request.vdf_iterations,
        request.network_latency_proof,
    )
}

/// Verifies an enhanced commitment with a fresh generator for the expected
/// prover (`enhanced_commitment_valid`); a key that is not 32 bytes is an
/// argument error.
pub fn verify_enhanced_block_commitment(
    commitment: &EnhancedPhysicalAccessCommitment,
    expected_prover_key: &Vec<u8>,
    expected_selection: &EnhancedChunkSelectionResult,
    vdf_time_plausible: bool,
    latency_proof_valid: bool,
) -> (r: HashChainResult<bool>)
    ensures
        expected_prover_key@.len() != 32 ==> (r matches Err(e) && e is InvalidArgument),
        expected_prover_key@.len() == 32 ==> (r matches Ok(b) && b == enhanced_commitment_valid(
            *commitment,
            *expected_selection,
            vdf_time_plausible,
            latency_proof_valid,
        )),
{
    let generator = match EnhancedCommitmentGenerator::new(crate::seqs::copy_bytes(expected_prover_key.as_slice())) {
        Ok(g) => g,
        Err(e) => return Err(e),
    };
    generator.verify_enhanced_physical_access_commitment(
        commitment,
        expected_prover_key,
        expected_selection,
        vdf_time_plausible,
        latency_proof_valid,
    )
}

/// Generates the commitments of several requests in order; the first
/// request that fails gives the error.
pub fn process_enhanced_commitments_parallel(requests: Vec<EnhancedCommitmentRequest>) -> (r: HashChainResult<
    Vec<EnhancedPhysicalAccessCommitment>,
>)
    ensures
        (forall|i: int| 0 <= i < requests@.len() ==> #[trigger] requests@[i].prover_key@.len() == 32) ==> (r matches Ok(
            v,
        ) && v@.len() == requests@.len()),
        (exists|i: int| 0 <= i < requests@.len() && #[trigger] requests@[i].prover_key@.len() != 32) ==> (r matches Err(
            e,
        ) && e is InvalidArgument),
{
    let ghost all = requests@;
    let mut results: Vec<EnhancedPhysicalAccessCommitment> = Vec::new();
    let mut rest = requests;
    let mut i: usize = 0;
    let n = rest.len();
    while i < n
        invariant
            i <= n,
            n == all.len(),
            all == requests@,
            rest@ == all.subrange(i as int, n as int),
            results@.len() == i,
            forall|j: int| 0 <= j < i ==> #[trigger] all[j].prover_key@.len() == 32,
        decreases n - i,
    {
        let request = rest.remove(0);
        assert(request == all[i as int]);
        assert(rest@ =~= all.subrange(i + 1, n as int));
        match generate_enhanced_block_commitment(request) {
            Ok(c) => results.push(c),
            Err(e) => {
                assert(all[i as int].prover_key@.len() != 32);
                return Err(e);
            },
        }
        i = i + 1;
    }
    Ok(results)
}

} // verus!
