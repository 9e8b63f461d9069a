use std::collections::hash_map::DefaultHasher;
use std::collections::HashSet;
use std::hash::{Hash, Hasher};

use storage_continuity::availability::{AvailabilityChallenger, AvailabilityProver, CHALLENGE_PROBABILITY_BITS};
use storage_continuity::chunk_selection::{select_chunks_deterministic, verify_chunk_selection_internal};
use storage_continuity::consts::{
    AVAILABILITY_RESPONSE_TIME_MS, AVAILABILITY_REWARD_UNITS, CHUNKS_PER_BLOCK, CHUNK_SELECTION_VERSION,
    CHUNK_SIZE_BYTES,
};
use storage_continuity::enhanced::EnhancedCommitmentGenerator;
use storage_continuity::encoding::{expand_local_entropy, FileEncoder};
use storage_continuity::enhanced::{EnhancedChunkSelectionResult, NetworkLatencyProof};
use storage_continuity::groups::{ChainCommitment, ChainGroup, GroupManager};
use storage_continuity::ids::generate_chain_id;
use storage_continuity::memory_hard::{
    choose_target_iterations, create_vdf_entropy, verify_block_vdf, MemoryHardVDF,
    INITIAL_ITERATIONS_PER_SECOND,
};
use storage_continuity::proofs::HierarchicalGlobalProof;
use storage_continuity::regions::{Region, RegionManager};
use storage_continuity::types::{AvailabilityChallenge, MemoryHardVDFProof, MultiSourceEntropy};
use storage_continuity::vdf_processor::{VDFProcessor, VdfAction, VdfEvent};
use storage_continuity::utils::compute_sha256;

/// Iterations a run aims at for a target time, from the calibrated rate.
fn iterations_for(target_time_seconds: f64, rate: u32) -> u32 {
    let production = target_time_seconds >= 30.0;
    let estimated = (target_time_seconds * rate as f64) as u32;
    choose_target_iterations(production, estimated)
}

/// Whether the time a proof records fits its iteration count.
fn time_plausible(proof: &MemoryHardVDFProof) -> bool {
    let time_ms = f64::from_bits(proof.computation_time_ms_bits);
    let min = proof.iterations as f64 / 500_000.0 * 1000.0;
    let max = proof.iterations as f64 / 200_000.0 * 1000.0;
    !(time_ms < min || time_ms > max)
}

/// Memory of the VDFs in these tests. The standard 256 MiB buffer takes
/// longer to initialise on the test machines than a test may run, so the
/// runs use the smallest buffer the VDF accepts; the algorithm is the same.
const TEST_VDF_MEMORY: usize = 1048576;

/// Runs the VDF for a target time. `MemoryHardVDF::compute` records no
/// time: the elapsed time is measured by its caller, and `verify_proof`
/// takes the caller's judgement of it as a flag. These tests stand in for
/// that caller and record the time that the calibrated rate of 300 000
/// iterations per second gives, so that what is tested is the VDF and the
/// verifier's rule on times, not the speed of the test machine.
fn timed_compute(vdf: &mut MemoryHardVDF, input: &Vec<u8>, target_time_seconds: f64) -> MemoryHardVDFProof {
    let iterations = iterations_for(target_time_seconds, vdf.get_iterations_per_second());
    let mut proof = vdf.compute(input, iterations).unwrap();
    let recorded_ms = iterations as f64 / 300_000.0 * 1000.0;
    proof.computation_time_ms_bits = recorded_ms.to_bits();
    proof
}

#[test]
fn test_chunk_selection_deterministic() {
    let block_hash = vec![1u8; 32];
    let total_chunks = 1000;

    let result1 = select_chunks_deterministic(block_hash.clone(), total_chunks).unwrap();
    let result2 = select_chunks_deterministic(block_hash, total_chunks).unwrap();

    assert_eq!(result1.selected_indices, result2.selected_indices);
    assert_eq!(result1.verification_hash, result2.verification_hash);
}

#[test]
fn test_chunk_selection_validation() {
    let block_hash = vec![1u8; 32];

    let result = select_chunks_deterministic(block_hash.clone(), 2);
    assert!(result.is_err());

    let invalid_hash = vec![1u8; 31];
    let result = select_chunks_deterministic(invalid_hash, 1000);
    assert!(result.is_err());
}

#[test]
fn test_chunk_selection_verification() {
    let block_hash = vec![1u8; 32];
    let total_chunks = 1000;

    let result = select_chunks_deterministic(block_hash.clone(), total_chunks).unwrap();

    let is_valid = verify_chunk_selection_internal(
        block_hash,
        total_chunks,
        result.selected_indices,
        Some(CHUNK_SELECTION_VERSION),
    )
    .unwrap();

    assert!(is_valid);
}

#[test]
fn test_chunk_selection_unique() {
    let block_hash = vec![1u8; 32];
    let total_chunks = 1000;

    let result = select_chunks_deterministic(block_hash, total_chunks).unwrap();

    let mut unique_indices = HashSet::new();
    for idx in &result.selected_indices {
        assert!(unique_indices.insert(*idx));
    }

    assert_eq!(unique_indices.len(), CHUNKS_PER_BLOCK as usize);
}

#[test]
fn test_enhanced_ownership_commitment() {
    let prover_key = vec![42u8; 32];
    let generator = EnhancedCommitmentGenerator::new(prover_key.clone()).unwrap();

    let original_hash = vec![1u8; 32];
    let encoded_hash = vec![2u8; 32];

    let commitment = generator
        .generate_enhanced_ownership_commitment(original_hash.clone(), encoded_hash.clone(), prover_key.clone())
        .unwrap();

    assert_eq!(commitment.public_key, prover_key);
    assert_eq!(commitment.original_data_hash, original_hash);
    assert_eq!(commitment.encoded_data_hash, encoded_hash);
    assert_eq!(commitment.commitment_hash.len(), 32);
}

#[test]
fn test_availability_challenger_creation() {
    let mut challenger = AvailabilityChallenger::new();
    let chain_id = vec![1u8; 32];
    let challenger_id = vec![2u8; 32];

    let challenge = challenger.create_challenge(chain_id, 1000, challenger_id, 100, 0, 0).unwrap();

    if let Some(challenge) = challenge {
        assert_eq!(challenge.chain_id.len(), 32);
        assert!(challenge.chunk_index < 1000);
        assert_eq!(challenge.challenge_nonce.len(), 32);
        assert_eq!(f64::from_bits(challenge.reward_amount_bits), AVAILABILITY_REWARD_UNITS as f64);
    }
}

#[test]
fn test_challenge_deterministic() {
    let mut challenger1 = AvailabilityChallenger::new();
    let mut challenger2 = AvailabilityChallenger::new();

    let chain_id = vec![3u8; 32];
    let challenger_id = vec![4u8; 32];
    let block_height = 200;

    let challenge1 = challenger1
        .create_challenge(chain_id.clone(), 1000, challenger_id.clone(), block_height, 0, 0)
        .unwrap();
    let challenge2 = challenger2.create_challenge(chain_id, 1000, challenger_id, block_height, 0, 0).unwrap();

    match (challenge1, challenge2) {
        (Some(c1), Some(c2)) => {
            assert_eq!(c1.chunk_index, c2.chunk_index);
            assert_eq!(c1.challenge_nonce, c2.challenge_nonce);
        }
        (None, None) => {}
        _ => {
            panic!("Challenges should be deterministic");
        }
    }
}

#[test]
fn test_availability_prover() {
    let mut prover = AvailabilityProver::new();
    prover.register_chain("test_chain".to_string(), "/fake/path".to_string(), 1000);

    let challenge = AvailabilityChallenge {
        chain_id: hex::decode("test_chain").unwrap_or_default(),
        chunk_index: 42,
        challenge_nonce: vec![5u8; 32],
        challenger_id: vec![6u8; 32],
        challenge_time_bits: 1234567890.0f64.to_bits(),
        deadline_bits: 1234567890.5f64.to_bits(),
        reward_amount_bits: (AVAILABILITY_REWARD_UNITS as f64).to_bits(),
    };

    // The chain is registered under the name "test_chain", which is not the
    // hex of the challenged identifier, so the response fails before any read.
    let result = prover.respond_to_challenge(&challenge, Vec::new(), 0);
    assert!(result.is_err());
}

#[test]
fn test_challenge_stats() {
    let challenger = AvailabilityChallenger::new();
    let stats = challenger.get_challenge_stats();

    assert_eq!(stats.active_challenges, 0);
    assert_eq!(stats.challenge_probability_bits, CHALLENGE_PROBABILITY_BITS);
    assert_eq!(f64::from_bits(stats.challenge_probability_bits), 0.1);
    assert_eq!(stats.response_timeout_ms, AVAILABILITY_RESPONSE_TIME_MS);
}

#[test]
fn test_chunk_encoding_decoding() {
    let prover_key = vec![42u8; 32];
    let encoder = FileEncoder::new(prover_key).unwrap();

    let original_data = vec![1u8, 2u8, 3u8, 4u8];
    let mut chunk = original_data.clone();
    chunk.resize(CHUNK_SIZE_BYTES as usize, 0);

    let encoded = encoder.encode_chunk(&chunk, 0).unwrap();
    let decoded = encoder.decode_chunk(&encoded, 0).unwrap();

    assert_eq!(chunk, decoded);
    assert_ne!(chunk, encoded);
}

#[test]
fn test_chunk_encoding_deterministic() {
    let prover_key = vec![42u8; 32];
    let encoder = FileEncoder::new(prover_key).unwrap();

    let chunk = vec![5u8; CHUNK_SIZE_BYTES as usize];

    let encoded1 = encoder.encode_chunk(&chunk, 1).unwrap();
    let encoded2 = encoder.encode_chunk(&chunk, 1).unwrap();

    assert_eq!(encoded1, encoded2);
}

#[test]
fn test_different_provers_different_encoding() {
    let prover_key1 = vec![1u8; 32];
    let prover_key2 = vec![2u8; 32];

    let encoder1 = FileEncoder::new(prover_key1).unwrap();
    let encoder2 = FileEncoder::new(prover_key2).unwrap();

    let chunk = vec![10u8; CHUNK_SIZE_BYTES as usize];

    let encoded1 = encoder1.encode_chunk(&chunk, 0).unwrap();
    let encoded2 = encoder2.encode_chunk(&chunk, 0).unwrap();

    assert_ne!(encoded1, encoded2);
}

#[test]
fn test_encoding_info_creation() {
    let prover_key = vec![42u8; 32];
    let encoder = FileEncoder::new(prover_key.clone()).unwrap();

    let original_hash = vec![1u8; 32];
    let encoded_hash = vec![2u8; 32];

    let info = encoder.create_encoding_info(original_hash.clone(), encoded_hash.clone());

    assert_eq!(info.prover_key, prover_key);
    assert_eq!(info.original_hash, original_hash);
    assert_eq!(info.encoded_hash, encoded_hash);
    assert_eq!(info.encoding_version, 1);
}

#[test]
fn test_memory_hard_vdf_basic() {
    let mut vdf = MemoryHardVDF::new(TEST_VDF_MEMORY).unwrap();
    let input_state = vec![1u8; 32];

    let proof = timed_compute(&mut vdf, &input_state, 0.1);

    assert_eq!(proof.input_state.len(), 32);
    assert_eq!(proof.output_state.len(), 32);
    assert!(proof.iterations >= 1000);
    assert_eq!(proof.memory_usage_bytes as f64, TEST_VDF_MEMORY as f64);
    assert!(!proof.memory_access_samples.is_empty());
}

#[test]
fn test_memory_hard_vdf_deterministic() {
    let mut vdf1 = MemoryHardVDF::new(TEST_VDF_MEMORY).unwrap();
    let mut vdf2 = MemoryHardVDF::new(TEST_VDF_MEMORY).unwrap();
    let input_state = vec![2u8; 32];

    let proof1 = timed_compute(&mut vdf1, &input_state, 0.05);
    let proof2 = timed_compute(&mut vdf2, &input_state, 0.05);

    assert_eq!(proof1.output_state, proof2.output_state);
    assert_eq!(proof1.iterations, proof2.iterations);
}

#[test]
fn test_memory_hard_vdf_verification() {
    // See `TEST_VDF_MEMORY` and `timed_compute` for the memory size and the
    // recorded time.
    let mut vdf = MemoryHardVDF::new(TEST_VDF_MEMORY).unwrap();
    let input_state = vec![3u8; 32];

    let proof = timed_compute(&mut vdf, &input_state, 0.1);

    let is_valid = MemoryHardVDF::verify_proof(&proof, time_plausible(&proof));
    assert!(is_valid);
}

#[test]
fn test_vdf_entropy_creation() {
    let blockchain_entropy = vec![1u8; 32];
    let beacon_entropy = Some(vec![2u8; 32]);
    let local_entropy = vec![3u8; 32];
    let timestamp = 1234567890.0f64;

    let entropy =
        create_vdf_entropy(blockchain_entropy, beacon_entropy, local_entropy, timestamp.to_bits()).unwrap();

    assert_eq!(entropy.blockchain_entropy.len(), 32);
    assert!(entropy.beacon_entropy.is_some());
    assert_eq!(entropy.local_entropy.len(), 32);
    assert_eq!(f64::from_bits(entropy.timestamp_bits), timestamp);
    assert_eq!(entropy.combined_hash.len(), 32);
}

#[test]
fn test_block_vdf_functions() {
    let input_state = vec![4u8; 32];

    // `compute_block_vdf` runs the standard 256 MiB VDF; the same run on the
    // test memory stands for it here.
    let mut vdf = MemoryHardVDF::new(TEST_VDF_MEMORY).unwrap();
    assert_eq!(vdf.get_iterations_per_second(), INITIAL_ITERATIONS_PER_SECOND);
    let proof = timed_compute(&mut vdf, &input_state, 0.05);
    let is_valid = verify_block_vdf(&proof, time_plausible(&proof));

    assert!(is_valid);
    assert!(proof.iterations >= 1000);
}

#[test]
fn test_sha256_computation() {
    let data = b"test data";
    let hash = compute_sha256(data);
    assert_eq!(hash.len(), 32);
}

#[test]
fn test_chain_id_generation() {
    let public_key = vec![1u8; 32];
    let data_hash = [2u8; 32];
    let chain_id = generate_chain_id(&public_key, &data_hash);
    assert_eq!(chain_id.len(), 32);
}

#[test]
fn test_chain_group_creation() {
    let group = ChainGroup::new("test_group".to_string(), 10);
    assert_eq!(group.group_id, "test_group");
    assert_eq!(group.max_chains, 10);
    assert_eq!(group.chain_count(), 0);
    assert!(!group.is_full());
}

#[test]
fn test_chain_group_add_remove() {
    let mut group = ChainGroup::new("test_group".to_string(), 2);
    let chain1 = vec![1u8; 32];
    let chain2 = vec![2u8; 32];
    let chain3 = vec![3u8; 32];

    assert!(group.add_chain(chain1.clone()).is_ok());
    assert!(group.add_chain(chain2.clone()).is_ok());
    assert_eq!(group.chain_count(), 2);
    assert!(group.is_full());

    assert!(group.add_chain(chain3.clone()).is_err());

    group.remove_chain(&chain1);
    assert_eq!(group.chain_count(), 1);
    assert!(!group.is_full());
}

#[test]
fn test_group_manager() {
    let mut manager = GroupManager::new();
    let chain1 = vec![1u8; 32];
    let chain2 = vec![2u8; 32];

    let group1 = manager.assign_chain_to_group(chain1.clone()).unwrap();
    let group2 = manager.assign_chain_to_group(chain2.clone()).unwrap();

    assert_eq!(group1, group2);
    assert_eq!(manager.groups.len(), 1);
    assert_eq!(manager.chain_to_group.len(), 2);
}

#[test]
fn test_hierarchical_proof_creation() {
    let proof_engine = HierarchicalGlobalProof::new(1000, 10);
    assert_eq!(proof_engine.max_chains_per_group, 1000);
    assert_eq!(proof_engine.max_groups_per_region, 10);
}

#[test]
fn test_organize_into_groups() {
    let proof_engine = HierarchicalGlobalProof::new(2, 10);
    let mut chain_commitments = Vec::new();

    for i in 0..5 {
        let chain_id = vec![i as u8; 32];
        let commitment = vec![i as u8; 32];
        chain_commitments.push(ChainCommitment { chain_id, commitment });
    }

    let groups = proof_engine.organize_into_groups(&chain_commitments).unwrap();

    assert_eq!(groups.len(), 3);

    let size_of = |id: &str| groups.iter().find(|g| g.group_id == id).unwrap().chains.len();
    assert_eq!(size_of("group_000000"), 2);
    assert_eq!(size_of("group_000001"), 2);
    assert_eq!(size_of("group_000002"), 1);
}

#[test]
fn test_compute_group_proof() {
    let proof_engine = HierarchicalGlobalProof::new(1000, 10);
    let block_hash = vec![1u8; 32];

    let mut group_chains = Vec::new();
    for i in 0..3 {
        let chain_id = vec![i as u8; 32];
        let commitment = vec![i as u8; 32];
        group_chains.push(ChainCommitment { chain_id, commitment });
    }

    let proof = proof_engine.compute_group_proof(&"test_group".to_string(), &group_chains, &block_hash).unwrap();

    assert_eq!(proof.len(), 32);
}

#[test]
fn test_region_creation() {
    let region = Region::new("test_region".to_string(), 10);
    assert_eq!(region.region_id, "test_region");
    assert_eq!(region.max_groups, 10);
    assert_eq!(region.group_count(), 0);
    assert!(!region.is_full());
}

#[test]
fn test_region_add_remove() {
    let mut region = Region::new("test_region".to_string(), 2);
    let group1 = "group_001".to_string();
    let group2 = "group_002".to_string();
    let group3 = "group_003".to_string();

    assert!(region.add_group(group1.clone()).is_ok());
    assert!(region.add_group(group2.clone()).is_ok());
    assert_eq!(region.group_count(), 2);
    assert!(region.is_full());

    assert!(region.add_group(group3.clone()).is_err());

    region.remove_group(&group1);
    assert_eq!(region.group_count(), 1);
    assert!(!region.is_full());
}

#[test]
fn test_region_manager() {
    let mut manager = RegionManager::new();
    let group1 = "group_001".to_string();
    let group2 = "group_002".to_string();

    let region1 = manager.assign_group_to_region(group1.clone()).unwrap();
    let region2 = manager.assign_group_to_region(group2.clone()).unwrap();

    assert_eq!(region1, region2);
    assert_eq!(manager.regions.len(), 1);
    assert_eq!(manager.group_to_region.len(), 2);
}

#[test]
fn test_enhanced_physical_access_commitment_generation() {

    let prover_key = vec![42u8; 32];
    let mut generator = EnhancedCommitmentGenerator::with_memory(prover_key, TEST_VDF_MEMORY).unwrap();

    let entropy = MultiSourceEntropy {
        blockchain_entropy: vec![1u8; 32],
        beacon_entropy: Some(vec![2u8; 32]),
        local_entropy: vec![3u8; 32],
        timestamp_bits: 1234567890.0f64.to_bits(),
        combined_hash: vec![4u8; 32],
    };
    let same_entropy = MultiSourceEntropy {
        blockchain_entropy: vec![1u8; 32],
        beacon_entropy: Some(vec![2u8; 32]),
        local_entropy: vec![3u8; 32],
        timestamp_bits: 1234567890.0f64.to_bits(),
        combined_hash: vec![4u8; 32],
    };

    let previous_commitment = vec![5u8; 32];
    // The selection is drawn over 100 000 chunks from the block entropy; the
    // latency proof stands for the measurement of the two peers.
    let selection = select_chunks_deterministic(vec![1u8; 32], 100000).unwrap();
    let selection = EnhancedChunkSelectionResult {
        selected_indices: selection.selected_indices,
        algorithm_version: selection.algorithm_version,
        total_chunks_bits: 100000.0f64.to_bits(),
        entropy: same_entropy,
        verification_hash: selection.verification_hash,
        unpredictability_proof: vec![7u8; 32],
    };
    let latency = NetworkLatencyProof {
        peer_latencies: Vec::new(),
        average_latency_ms_bits: 20.0f64.to_bits(),
        latency_variance_bits: 4.0f64.to_bits(),
        measurement_time_bits: 1234567890.0f64.to_bits(),
        location_proof: None,
    };

    let commitment = generator
        .generate_enhanced_physical_access_commitment(
            100.0f64.to_bits(),
            previous_commitment.clone(),
            entropy,
            selection,
            1000,
            latency,
        )
        .unwrap();

    assert_eq!(f64::from_bits(commitment.block_height_bits), 100.0);
    assert_eq!(commitment.previous_commitment, previous_commitment);
    assert_eq!(commitment.selected_chunks.len(), CHUNKS_PER_BLOCK as usize);
    assert_eq!(commitment.chunk_hashes.len(), CHUNKS_PER_BLOCK as usize);
    assert_eq!(commitment.commitment_hash.len(), 32);
}

#[test]
fn test_local_entropy_generation() {

    let local_hash = || {
        let mut hasher = DefaultHasher::new();
        let timestamp = std::time::SystemTime::now()
            .duration_since(std::time::UNIX_EPOCH)
            .unwrap_or_default()
            .as_nanos();
        timestamp.hash(&mut hasher);
        hasher.finish()
    };

    let entropy1 = expand_local_entropy(local_hash());
    let mut entropy2 = expand_local_entropy(local_hash());
    while entropy2 == entropy1 {
        entropy2 = expand_local_entropy(local_hash());
    }

    assert_eq!(entropy1.len(), 32);
    assert_eq!(entropy2.len(), 32);
    assert_ne!(entropy1, entropy2);
}

#[test]
fn test_vdf_processor_with_shared_proofs() {

    let private_key = [1u8; 32];
    let public_key = {
        let secret = ed25519_dalek::SecretKey::from_bytes(&private_key).unwrap();
        ed25519_dalek::PublicKey::from(&secret).to_bytes().to_vec()
    };

    let initial_state = vec![1u8; 32];
    let mut processor = VDFProcessor::new(initial_state, 256, 1000, private_key.to_vec());

    processor.start();

    // The processor's loop, driven here tick by tick: a proof is due at the
    // first tick and every tenth after it.
    for tick in 0..30u64 {
        let event = VdfEvent::Tick {
            iteration_due: true,
            proof_due: tick % 10 == 0,
            current_time_bits: (1000.0 + tick as f64).to_bits(),
        };
        match processor.step(event) {
            VdfAction::Iterated { .. } => {}
            _ => panic!("a running processor iterates when an iteration is due"),
        }
    }

    let (_state, iterations) = processor.get_state();
    assert!(iterations > 0);

    assert!(processor.verify_shared_proof_chain(&public_key));
    assert_eq!(processor.shared_proofs_count(), 3);

    processor.stop();
}

#[test]
fn test_enhanced_commitment_verification() {
    let prover_key = vec![42u8; 32];
    let _generator = EnhancedCommitmentGenerator::new(prover_key.clone()).unwrap();

    let entropy = || MultiSourceEntropy {
        blockchain_entropy: vec![1u8; 32],
        beacon_entropy: None,
        local_entropy: vec![3u8; 32],
        timestamp_bits: 1234567890.0f64.to_bits(),
        combined_hash: vec![4u8; 32],
    };

    let expected = storage_continuity::entropy::select_chunks_from_entropy(entropy(), 100000, 4).unwrap();
    let is_valid = storage_continuity::entropy::verify_chunk_selection(entropy(), 100000, vec![1, 2, 3, 4]);
    assert_eq!(is_valid, expected == vec![1, 2, 3, 4]);
}
