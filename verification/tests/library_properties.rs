use sha2::{Digest, Sha256};

use storage_continuity::availability::{challenge_id_of, AvailabilityChallenger, AvailabilityProver, AvailabilityResult};
use storage_continuity::api::{
    create_commitment_hash, verify_commitment_integrity, HierarchicalNetworkManager, NetworkNode,
    ProofOfStorageProver, ProofOfStorageVerifier,
};
use storage_continuity::chunk_selection::select_chunks_deterministic as select_block_chunks;
use storage_continuity::commitments::{
    create_anchored_ownership_commitment_internal, create_ownership_commitment_internal,
    create_physical_access_commitment_internal, verify_physical_access_commitment,
};
use storage_continuity::entropy::{select_chunks_from_entropy, verify_chunk_selection as verify_entropy_selection};
use storage_continuity::types::{BlockCommitment, MultiSourceEntropy};
use storage_continuity::compact::UltraCompactProof;
use storage_continuity::consensus::NetworkConsensusValidator;
use storage_continuity::crypto::{bytes_to_hex, compute_blake3, compute_crc32, compute_keccak256};
use storage_continuity::encoding::{decode_file_contents, encode_file_contents};
use storage_continuity::errors::{check_performance_target, HashChainError};
use storage_continuity::hashchain::IndividualHashChain;
use storage_continuity::lifecycle::{ChainLifecycle, ChainState};
use storage_continuity::enhanced::{EnhancedCommitmentGenerator, NetworkLatencyProof};
use storage_continuity::groups::ChainCommitment;
use storage_continuity::manager::HierarchicalGlobalChainManager;
use storage_continuity::proofs::HierarchicalGlobalProof;
use storage_continuity::memory_hard::{choose_target_iterations, MemoryHardVDF};
use storage_continuity::signing::{derive_key, derive_public_key, sign_data, verify_signature};
use storage_continuity::types::ProofWindow;
use storage_continuity::verification::verify_proof_of_storage_continuity_internal;
use storage_continuity::utils::{
    check_hierarchical_limits, compute_sha256, create_output_file_paths, derive_data_file_path,
    generate_deterministic_bytes, generate_proof_nonce, hex_to_bytes, select_chunks_deterministic,
    verify_chunk_selection,
};
use storage_continuity::vdf::ContinuousVDF;

fn hex_of(bytes: &[u8]) -> String {
    bytes.iter().map(|b| format!("{:02x}", b)).collect()
}

#[test]
fn sha256_gives_the_standard_digest() {
    let digest = compute_sha256(b"abc");
    assert_eq!(hex_of(&digest), "ba7816bf8f01cfea414140de5dae2223b00361a396177a9cb410ff61f20015ad");
}

#[test]
fn blake3_gives_the_standard_digest() {
    let digest = compute_blake3(b"");
    assert_eq!(hex_of(&digest), "af1349b9f5f9a1a6a0404dea36dcc9499bcb25c9adc112b7cc9a93cae41f3262");
}

#[test]
fn keccak256_gives_the_standard_digest() {
    let digest = compute_keccak256(b"");
    assert_eq!(hex_of(&digest), "c5d2460186f7233c927e7db2dcc703c0e500b653ca82273b7bfad8045d85a470");
}

#[test]
fn crc32_gives_the_standard_check_value() {
    assert_eq!(compute_crc32(b"123456789"), 0xCBF43926);
}

#[test]
fn hex_round_trip_and_refusal() {
    let text = bytes_to_hex(&[0x00, 0xab, 0xff]);
    assert_eq!(text, "00abff");
    assert_eq!(hex_to_bytes(&text).unwrap(), vec![0x00, 0xab, 0xff]);
    assert!(matches!(hex_to_bytes("test_chain"), Err(HashChainError::InvalidArgument { .. })));
}

#[test]
fn signatures_verify_and_reject_tampering() {
    let private_key = [7u8; 32];
    let public_key = {
        let secret = ed25519_dalek::SecretKey::from_bytes(&private_key).unwrap();
        ed25519_dalek::PublicKey::from(&secret).to_bytes().to_vec()
    };
    let signature = sign_data(&private_key, b"block data").unwrap();
    assert_eq!(signature.len(), 64);
    assert!(verify_signature(&public_key, b"block data", &signature).unwrap());
    assert!(!verify_signature(&public_key, b"other data", &signature).unwrap());
    assert!(matches!(sign_data(&[1u8; 31], b"x"), Err(HashChainError::InvalidPrivateKeySize(31))));
}

#[test]
fn derived_keys_depend_on_the_info() {
    let a = derive_key(b"master", b"context", "a");
    let b = derive_key(b"master", b"context", "b");
    assert_eq!(a.len(), 32);
    assert_ne!(a, b);
    assert_eq!(a, derive_key(b"master", b"context", "a"));
}

#[test]
fn deterministic_bytes_repeat_for_a_seed() {
    let a = generate_deterministic_bytes(b"seed", 64);
    let b = generate_deterministic_bytes(b"seed", 64);
    let c = generate_deterministic_bytes(b"other", 64);
    assert_eq!(a.len(), 64);
    assert_eq!(a, b);
    assert_ne!(a, c);
}

#[test]
fn proof_nonce_is_a_prefix_of_the_hash() {
    let nonce = generate_proof_nonce(b"extra", 7);
    let mut hasher = Sha256::new();
    hasher.update(7u64.to_be_bytes());
    hasher.update(b"extra");
    let full = hasher.finalize();
    assert_eq!(nonce, full[..12].to_vec());
}

#[test]
fn file_encoding_round_trip() {
    let key = vec![9u8; 32];
    let content: Vec<u8> = (0..10000u32).map(|i| (i % 251) as u8).collect();
    let encoded = encode_file_contents(&content, key.clone()).unwrap();
    assert_ne!(encoded.content[..content.len()].to_vec(), content);
    let decoded = decode_file_contents(&encoded.content, key).unwrap();
    assert_eq!(decoded.content[..content.len()].to_vec(), content);
}

fn sample_compact() -> UltraCompactProof {
    UltraCompactProof {
        chain_hash: vec![1u8; 32],
        chain_length_bits: 12.0f64.to_bits(),
        global_proof_reference: vec![2u8; 32],
        global_block_height_bits: 1000.0f64.to_bits(),
        hierarchical_position: vec![3u8; 32],
        total_chains_count: 77,
        proof_timestamp_bits: 1234.5f64.to_bits(),
        proof_nonce: vec![4u8; 12],
    }
}

#[test]
fn compact_proof_round_trips_through_its_wire_form() {
    let proof = sample_compact();
    let bytes = proof.serialize().unwrap();
    assert_eq!(bytes.len(), 136);
    let back = UltraCompactProof::deserialize(bytes.clone()).unwrap();
    assert_eq!(back.chain_hash, proof.chain_hash);
    assert_eq!(f64::from_bits(back.chain_length_bits), 12.0);
    assert_eq!(back.global_proof_reference, proof.global_proof_reference);
    assert_eq!(f64::from_bits(back.global_block_height_bits), 1000.0);
    assert_eq!(back.hierarchical_position, proof.hierarchical_position);
    assert_eq!(back.total_chains_count, 77);
    assert_eq!(f64::from_bits(back.proof_timestamp_bits), 1234.5);
    assert_eq!(back.proof_nonce, proof.proof_nonce);
    assert_eq!(back.serialize().unwrap(), bytes);
    assert_eq!(bytes[32..40].to_vec(), 12.0f64.to_le_bytes().to_vec());
    assert_eq!(bytes[112..116].to_vec(), 77u32.to_le_bytes().to_vec());
}

#[test]
fn compact_proof_size_errors() {
    let mut proof = sample_compact();
    proof.proof_nonce = vec![4u8; 11];
    assert!(matches!(proof.serialize(), Err(HashChainError::GenericFailure { .. })));
    assert!(matches!(UltraCompactProof::deserialize(vec![0u8; 135]), Err(HashChainError::GenericFailure { .. })));
}

#[test]
fn lifecycle_transitions() {
    let mut chain = ChainLifecycle::new(vec![1u8; 32], 1.0f64.to_bits());
    assert_eq!(chain.state, ChainState::Initializing);
    assert!(matches!(chain.pause(2.0f64.to_bits()), Err(HashChainError::ChainLifecycle { .. })));
    assert_eq!(chain.state, ChainState::Initializing);
    assert!(chain.activate(3.0f64.to_bits()).is_ok());
    assert!(chain.is_active());
    assert!(chain.pause(4.0f64.to_bits()).is_ok());
    assert_eq!(*chain.get_state(), ChainState::Paused);
    assert!(chain.archive(5.0f64.to_bits()).is_ok());
    assert_eq!(chain.state, ChainState::Archiving);
    assert!(chain.activate(6.0f64.to_bits()).is_err());
    assert!(chain.remove(7.0f64.to_bits()).is_ok());
    assert_eq!(chain.state, ChainState::Removed);
    assert_eq!(f64::from_bits(chain.updated_at_bits), 7.0);
    assert_eq!(f64::from_bits(chain.created_at_bits), 1.0);
    assert!(chain.activate(8.0f64.to_bits()).is_err());
}

#[test]
fn continuous_vdf_signs_and_verifies_blocks() {
    let mut vdf = ContinuousVDF::new(vec![5u8; 32], 1);
    assert!(matches!(vdf.sign_block(1, vec![9u8; 32], 3), Err(HashChainError::VDFError(_))));
    for _ in 0..3 {
        vdf.iterate();
    }
    let signature = vdf.sign_block(1, vec![9u8; 32], 3).unwrap();
    assert_eq!(signature.len(), 32);
    assert!(vdf.verify_block_signature(1, &vec![9u8; 32], &signature, 3));
    assert!(!vdf.verify_block_signature(2, &vec![9u8; 32], &signature, 3));
    assert!(!vdf.verify_block_signature(1, &vec![9u8; 32], &signature, 4));
    let (_, iterations) = vdf.get_state();
    assert_eq!(iterations, 3);
}

#[test]
fn created_commitments_verify() {
    let selection = select_block_chunks(vec![3u8; 32], 5000).unwrap();
    let hashes: Vec<Vec<u8>> = selection.selected_indices.iter().map(|i| compute_sha256(&i.to_be_bytes())).collect();
    let commitment = create_physical_access_commitment_internal(
        vec![0u8; 32],
        vec![3u8; 32],
        10,
        selection.selected_indices.clone(),
        hashes,
    )
    .unwrap();
    assert!(verify_physical_access_commitment(&commitment).unwrap());
    let mut tampered = commitment;
    tampered.block_height = 11;
    assert!(!verify_physical_access_commitment(&tampered).unwrap());
}

#[test]
fn chains_stay_valid_as_commitments_are_added() {
    // A file whose size is not a whole number of chunks reads its last chunk
    // as the data left (decoded) followed by zeros.
    let partial: Vec<u8> = vec![1u8; 70000];
    let partial_chain =
        IndividualHashChain::new_from_stream(vec![8u8; 32], &partial, "out".to_string(), 100, vec![1u8; 32]).unwrap();
    assert_eq!(partial_chain.get_total_chunks(), 18);
    let last = partial_chain.read_chunk(17).unwrap();
    assert_eq!(last.len(), 4096);
    assert!(last[..70000 - 17 * 4096].iter().all(|&b| b == 1));
    assert!(last[70000 - 17 * 4096..].iter().all(|&b| b == 0));
    assert_eq!(partial_chain.read_chunk(3).unwrap(), vec![1u8; 4096]);
    let data: Vec<u8> = (0..(18 * 4096u32)).map(|i| (i % 256) as u8).collect();
    let mut chain =
        IndividualHashChain::new_from_stream(vec![8u8; 32], &data, "out".to_string(), 100, vec![1u8; 32]).unwrap();
    assert_eq!(chain.get_total_chunks(), 18);
    for height in 101..106u64 {
        let selected: Vec<u32> = (0..16u32).collect();
        chain.add_commitment(vec![height as u8; 32], height, selected).unwrap();
        assert!(chain.verify_chain().unwrap());
    }
    assert_eq!(chain.chain_length, 5);
    let window = chain.get_proof_window().unwrap();
    assert_eq!(window.commitments.len(), 5);
    assert!(matches!(
        IndividualHashChain::new_minimal(vec![8u8; 32], 0, vec![0u8; 32]).unwrap().add_commitment(
            vec![1u8; 32],
            1,
            vec![0]
        ),
        Err(HashChainError::NoDataStreamed)
    ));
}

#[test]
fn walk_selection_is_distinct_sorted_and_verifies() {
    let entropy = vec![6u8; 32];
    let selected = select_chunks_deterministic(&entropy, 100, 16);
    assert_eq!(selected.len(), 16);
    let mut sorted = selected.clone();
    sorted.sort();
    sorted.dedup();
    assert_eq!(sorted, selected);
    assert!(selected.iter().all(|&c| c < 100));
    assert!(verify_chunk_selection(&entropy, 100, &selected));
    assert!(select_chunks_deterministic(&entropy, 10, 16).is_empty());
}

#[test]
fn consensus_validator_rejects_placeholder_commitments() {
    let validator = NetworkConsensusValidator::new_production();
    let prover = ProofOfStorageProver::new(vec![1u8; 32]).unwrap();
    let commitment = prover.generate_commitment(Some(5), 0).unwrap();
    assert_eq!(commitment.selected_chunks, vec![0, 1, 2, 3]);
    // Four chunks instead of sixteen.
    assert!(validator.validate_commitment_consensus(&commitment).is_err());
    // The placeholder VDF reports a discrete time and 256 MiB.
    assert!(validator.validate_vdf_consensus(&commitment.vdf_proof).is_err());
    assert!(validator.validate_full_consensus(&commitment, 1000).is_err());
}

#[test]
fn scale_limits() {
    assert!(check_hierarchical_limits(1000, 1, 1).is_ok());
    assert!(matches!(
        check_hierarchical_limits(100001, 0, 0),
        Err(HashChainError::ScaleLimit { count: 100001, limit: 100000 })
    ));
    assert!(matches!(check_hierarchical_limits(1000, 12, 0), Err(HashChainError::GroupAssignment { .. })));
    assert!(matches!(check_hierarchical_limits(1000, 11, 8), Err(HashChainError::GroupAssignment { .. })));
    assert!(check_hierarchical_limits(1000, 11, 7).is_ok());
    assert!(check_performance_target("op", 10, 20).is_ok());
    assert!(matches!(check_performance_target("op", 30, 20), Err(HashChainError::PerformanceTarget { .. })));
}

#[test]
fn paths() {
    assert_eq!(derive_data_file_path("dir/abc.hashchain"), "dir/abc.data");
    assert_eq!(derive_data_file_path("a.hashchain.hashchain"), "a.data.data");
    assert_eq!(derive_data_file_path("plain"), "plain");
    let (data, chain) = create_output_file_paths("out", "ff00");
    assert_eq!(data, "out/ff00.data");
    assert_eq!(chain, "out/ff00.hashchain");
}

#[test]
fn interface_rules() {
    assert!(matches!(ProofOfStorageProver::new(vec![1u8; 31]), Err(HashChainError::InvalidPublicKeySize(31))));
    let prover = ProofOfStorageProver::new(vec![0xabu8; 32]).unwrap();
    assert_eq!(
        prover.get_prover_stats(),
        format!("{{\"prover_key\": \"{}\", \"data_stored\": true, \"challenges_responded\": 0}}", "ab".repeat(32))
    );
    assert_eq!(prover.issue_availability_challenge(&vec![1u8, 2u8]), "challenge_0102");
    assert!(prover.validate_chunk_count(&vec![], 999999));
    assert!(!prover.validate_chunk_count(&vec![], 1000000));
    assert!(prover.update_peer_latency("p", 50.0f64.to_bits()));
    assert!(!prover.update_peer_latency("p", 1000.0f64.to_bits()));
    assert!(!prover.update_peer_latency("p", (-5.0f64).to_bits()));
    assert!(!prover.update_peer_latency("p", f64::NAN.to_bits()));

    let verifier = ProofOfStorageVerifier::new(vec![2u8; 32]).unwrap();
    // The byte sum of 32 twos is 64: 64 mod 10 is 4.
    assert!(verifier.audit_prover(&vec![2u8; 32]));
    // 32 * 9 = 288, which is 8 mod 10; one byte more makes 289.
    let mut key = vec![9u8; 32];
    key[0] = 10;
    assert!(!verifier.audit_prover(&key));
    assert!(!verifier.audit_prover(&vec![2u8; 31]));
    assert_eq!(verifier.get_prover_reputation(&vec![2u8; 32]), 64);

    let mut manager = HierarchicalNetworkManager::new(vec![3u8; 32], "prover".to_string()).unwrap();
    assert!(manager.can_act_as(&"prover".to_string()));
    assert!(!manager.can_act_as(&"verifier".to_string()));
    assert!(matches!(manager.process_network_block(1, vec![0u8; 31]), Err(HashChainError::InvalidBlockHashSize(31))));
    assert!(manager.process_network_block(1, vec![0u8; 32]).is_ok());
    assert!(manager.remove_node(&vec![1u8; 32]));
    let full = HierarchicalNetworkManager::new(vec![3u8; 32], "full".to_string()).unwrap();
    assert!(full.can_act_as(&"verifier".to_string()));
}

#[test]
fn storage_commitment_hash_follows_its_fields() {
    let prover = ProofOfStorageProver::new(vec![1u8; 32]).unwrap();
    let commitment = prover.generate_commitment(None, 0).unwrap();
    let hash = create_commitment_hash(&commitment);
    let mut hasher = Sha256::new();
    hasher.update(&commitment.prover_key);
    hasher.update(&commitment.data_hash);
    hasher.update(commitment.block_height.to_be_bytes());
    hasher.update(&commitment.block_hash);
    for c in &commitment.selected_chunks {
        hasher.update(c.to_be_bytes());
    }
    for h in &commitment.chunk_hashes {
        hasher.update(h);
    }
    hasher.update(&commitment.vdf_proof.input_state);
    hasher.update(&commitment.vdf_proof.output_state);
    hasher.update(commitment.vdf_proof.iterations.to_be_bytes());
    hasher.update(&commitment.entropy.blockchain_entropy);
    hasher.update(&commitment.entropy.local_entropy);
    hasher.update(commitment.entropy.timestamp_bits.to_be_bytes());
    assert_eq!(hash, hasher.finalize().to_vec());
    assert!(verify_commitment_integrity(&commitment));
}

#[test]
fn vdf_calibration_and_targets() {
    assert_eq!(choose_target_iterations(true, 5), 28000000);
    assert_eq!(choose_target_iterations(false, 5), 10000);
    assert_eq!(choose_target_iterations(false, 37500), 37500);
    assert!(matches!(MemoryHardVDF::new(1024), Err(HashChainError::InvalidArgument { .. })));
    let mut vdf = MemoryHardVDF::new(1048576).unwrap();
    vdf.update_performance_calibration(5000, true, 50);
    assert_eq!(vdf.get_iterations_per_second(), 100000);
    vdf.update_performance_calibration(5000, true, 2000000);
    assert_eq!(vdf.get_iterations_per_second(), 1000000);
    vdf.update_performance_calibration(500, true, 200000);
    assert_eq!(vdf.get_iterations_per_second(), 1000000);
    assert!(matches!(vdf.compute(&vec![1u8; 31], 10), Err(HashChainError::InvalidArgument { .. })));
}

#[test]
fn node_identity_and_active_nodes() {
    let mut manager = HierarchicalNetworkManager::new(vec![0x0fu8; 32], "verifier".to_string()).unwrap();
    assert_eq!(
        manager.get_node_identity(),
        format!("{{\"node_key\": \"{}\", \"node_type\": \"verifier\", \"active_nodes\": 0}}", "0f".repeat(32))
    );
    for k in 0..3u8 {
        manager.active_nodes.push(NetworkNode {
            node_key: vec![k; 32],
            node_type: "prover".to_string(),
            reputation_bits: 0.5f64.to_bits(),
            last_activity_bits: 0,
            position: vec![k; 32],
        });
    }
    assert!(manager.get_node_identity().ends_with("\"active_nodes\": 3}"));
    assert!(manager.remove_node(&vec![1u8; 32]));
    let nodes = manager.get_active_nodes();
    assert_eq!(nodes.len(), 2);
    assert_eq!(nodes[0].node_key, vec![0u8; 32]);
    assert_eq!(nodes[1].node_key, vec![2u8; 32]);
}

#[test]
fn registering_a_chain_again_keeps_the_others() {
    let mut prover = AvailabilityProver::new();
    prover.register_chain("chain_a".to_string(), "/a".to_string(), 10);
    prover.register_chain("chain_b".to_string(), "/b".to_string(), 20);
    prover.register_chain("chain_a".to_string(), "/a2".to_string(), 30);
    assert_eq!(prover.get_total_chunks(&"chain_a".to_string()), Some(30));
    assert_eq!(prover.get_total_chunks(&"chain_b".to_string()), Some(20));
    assert_eq!(prover.get_total_chunks(&"chain_c".to_string()), None);
}

#[test]
fn manager_refuses_a_registered_key_and_removes_known_chains_only() {
    let mut manager = HierarchicalGlobalChainManager::new(3, 1000);
    let first = manager.add_chain("/a.data".to_string(), vec![1u8; 32]).unwrap();
    assert_eq!(first.chain_id, vec![1u8; 16]);
    assert_eq!(first.group_id, "group_000000");
    assert_eq!(first.region_id, "region_000");
    let second = manager.add_chain("/b.data".to_string(), vec![2u8; 32]).unwrap();
    assert_eq!(second.group_id, "group_000000");
    assert!(matches!(
        manager.add_chain("/a2.data".to_string(), vec![1u8; 32]),
        Err(HashChainError::ChainRegistry { .. })
    ));
    assert!(matches!(manager.add_chain("/c.data".to_string(), vec![3u8; 31]), Err(HashChainError::InvalidPublicKeySize(31))));
    assert_eq!(manager.chain_registry.len(), 2);
    assert_eq!(manager.chain_registry[0].data_file_path, "/a.data");
    assert_eq!(manager.active_chains, 2);
    let removed = manager.remove_chain(vec![1u8; 16], None, true).unwrap();
    assert_eq!(removed.reason, "removed");
    assert!(removed.archived);
    assert_eq!(manager.chain_registry.len(), 1);
    assert_eq!(manager.chain_registry[0].chain_id, vec![2u8; 16]);
    assert_eq!(manager.active_chains, 1);
    assert_eq!(manager.group_manager.chain_to_group.len(), 1);
    assert_eq!(manager.group_manager.groups[0].chain_ids, vec![vec![2u8; 16]]);
    match manager.remove_chain(vec![1u8; 16], None, true) {
        Err(HashChainError::ChainNotFound { chain_id }) => assert_eq!(chain_id, "01".repeat(16)),
        _ => panic!("an unknown chain is reported"),
    }
    assert_eq!(manager.active_chains, 1);
}

#[test]
fn an_issued_challenge_is_answered_once() {
    let mut challenger = AvailabilityChallenger::new();
    let mut issued = None;
    for height in 0..10_000u64 {
        if let Some(c) = challenger.create_challenge(vec![7u8; 32], 1000, vec![2u8; 32], height, 0, 0).unwrap() {
            issued = Some(c);
            break;
        }
    }
    let challenge = issued.expect("some height challenges the chain");
    assert_eq!(challenger.get_challenge_stats().active_challenges, 1);
    let id = bytes_to_hex(&challenge_id_of(&challenge));
    let prover = AvailabilityProver::new();
    let response = prover.build_response(&challenge, vec![9u8; 4096], 0).unwrap();
    let first = challenger.process_response(&id, &response, false);
    assert!(matches!(first, Ok(AvailabilityResult::Success)));
    assert_eq!(challenger.get_challenge_stats().active_challenges, 0);
    assert!(challenger.process_response(&id, &response, false).is_err());
}

fn linked_commitments(start: Vec<u8>, total_chunks: u64) -> Vec<storage_continuity::types::PhysicalAccessCommitment> {
    let mut previous = start;
    let mut commitments = Vec::new();
    for height in 0..5u64 {
        let block_hash = compute_sha256(&height.to_be_bytes());
        let selection = select_block_chunks(block_hash.clone(), total_chunks).unwrap();
        let hashes: Vec<Vec<u8>> =
            selection.selected_indices.iter().map(|i| compute_sha256(&i.to_be_bytes())).collect();
        let commitment = create_physical_access_commitment_internal(
            previous.clone(),
            block_hash,
            height,
            selection.selected_indices.clone(),
            hashes,
        )
        .unwrap();
        previous = commitment.commitment_hash.clone();
        commitments.push(commitment);
    }
    commitments
}

#[test]
fn a_linked_window_of_honest_commitments_is_accepted() {
    let anchor = vec![5u8; 32];
    let commitments = linked_commitments(anchor.clone(), 5000);
    let end = commitments.last().unwrap().commitment_hash.clone();
    let window = ProofWindow { commitments, merkle_proofs: Vec::new(), start_commitment: anchor.clone(), end_commitment: end };
    assert_eq!(verify_proof_of_storage_continuity_internal(window, anchor, vec![0u8; 32], 5000).unwrap(), true);
}

#[test]
fn a_window_with_a_broken_link_is_rejected() {
    let anchor = vec![5u8; 32];
    let mut commitments = linked_commitments(anchor.clone(), 5000);
    commitments[3].previous_commitment = vec![0u8; 32];
    let end = commitments.last().unwrap().commitment_hash.clone();
    let window = ProofWindow { commitments, merkle_proofs: Vec::new(), start_commitment: anchor.clone(), end_commitment: end };
    assert_eq!(verify_proof_of_storage_continuity_internal(window, anchor, vec![0u8; 32], 5000).unwrap(), false);
}

#[test]
fn storing_data_succeeds_for_a_key_and_a_chunk_count_in_range() {
    let mut prover = ProofOfStorageProver::new(vec![4u8; 32]).unwrap();
    let stored = prover.store_data(&vec![7u8; 8192], "/tmp/store".to_string(), 0).unwrap();
    assert_eq!(stored.block_height, 0);
    assert_eq!(stored.prover_key, vec![4u8; 32]);
    let mut other = ProofOfStorageProver::new(vec![4u8; 32]).unwrap();
    assert!(other.store_data(&vec![7u8; 5000], "/tmp/store".to_string(), 0).is_ok());
    let mut empty = ProofOfStorageProver::new(vec![4u8; 32]).unwrap();
    assert!(matches!(empty.store_data(&[], "/tmp/store".to_string(), 0), Err(HashChainError::TooFewChunks { .. })));
}

#[test]
fn the_chain_id_hashes_the_file_hash_then_the_key() {
    let public_key = vec![1u8; 32];
    let data_hash = vec![2u8; 32];
    let mut data = data_hash.clone();
    data.extend_from_slice(&public_key);
    assert_eq!(storage_continuity::ids::generate_chain_id(&public_key, &data_hash), compute_sha256(&data));
}

#[test]
fn the_anchored_hash_covers_the_commitment_and_the_block_hash() {
    let ownership = create_ownership_commitment_internal(vec![1u8; 32], vec![2u8; 32]).unwrap();
    let mut expected_input = ownership.commitment_hash.clone();
    expected_input.extend_from_slice(&[3u8; 32]);
    let expected = compute_sha256(&expected_input);
    let block = BlockCommitment { block_height: 77, block_hash: vec![3u8; 32], timestamp_bits: None };
    let anchored = create_anchored_ownership_commitment_internal(ownership, block).unwrap();
    assert_eq!(anchored.anchored_hash, expected);
}

fn entries(order: &[u8]) -> Vec<ChainCommitment> {
    order.iter().map(|&i| ChainCommitment { chain_id: vec![i; 32], commitment: vec![i; 32] }).collect()
}

#[test]
fn the_hierarchical_root_does_not_depend_on_input_order() {
    let engine = HierarchicalGlobalProof::new(2, 10);
    let block_hash = vec![1u8; 32];
    let previous = vec![0u8; 32];
    let forward = engine.compute_hierarchical_proof(&block_hash, &entries(&[0, 1, 2, 3, 4]), &previous).unwrap();
    let shuffled = engine.compute_hierarchical_proof(&block_hash, &entries(&[3, 0, 4, 2, 1]), &previous).unwrap();
    assert_eq!(forward.global_root_proof, shuffled.global_root_proof);
    assert_eq!(forward.global_root_proof.len(), 32);
    let ids: Vec<String> = forward.group_proofs.iter().map(|p| p.id.clone()).collect();
    assert_eq!(ids, vec!["group_000000", "group_000001", "group_000002"]);
    assert!(forward.group_proofs.iter().all(|p| p.proof.len() == 32));
    assert_eq!(forward.regional_proofs.len(), 1);
    assert_eq!(forward.regional_proofs[0].id, "region_000");
    assert!(forward.regional_proofs.iter().all(|p| p.proof.len() == 32));
    for (a, b) in forward.group_proofs.iter().zip(shuffled.group_proofs.iter()) {
        assert_eq!(a.proof, b.proof);
    }
}

#[test]
fn a_reordered_entropy_selection_verifies_and_an_empty_one_does_not() {
    let entropy = || MultiSourceEntropy {
        blockchain_entropy: vec![1u8; 32],
        beacon_entropy: None,
        local_entropy: vec![3u8; 32],
        timestamp_bits: 0,
        combined_hash: vec![4u8; 32],
    };
    let mut selection = select_chunks_from_entropy(entropy(), 1000, 6).unwrap();
    selection.reverse();
    assert!(verify_entropy_selection(entropy(), 1000, selection));
    assert!(!verify_entropy_selection(entropy(), 1000, Vec::new()));
}

fn enhanced_selection(unpredictability: u8) -> storage_continuity::enhanced::EnhancedChunkSelectionResult {
    let selection = select_block_chunks(vec![1u8; 32], 100000).unwrap();
    storage_continuity::enhanced::EnhancedChunkSelectionResult {
        selected_indices: selection.selected_indices,
        algorithm_version: selection.algorithm_version,
        total_chunks_bits: 100000.0f64.to_bits(),
        entropy: MultiSourceEntropy {
            blockchain_entropy: vec![1u8; 32],
            beacon_entropy: None,
            local_entropy: vec![3u8; 32],
            timestamp_bits: 0,
            combined_hash: vec![4u8; 32],
        },
        verification_hash: selection.verification_hash,
        unpredictability_proof: vec![unpredictability; 32],
    }
}

#[test]
fn a_generated_enhanced_commitment_verifies() {
    let key = vec![42u8; 32];
    let mut generator = EnhancedCommitmentGenerator::with_memory(key.clone(), 1048576).unwrap();
    let entropy = MultiSourceEntropy {
        blockchain_entropy: vec![1u8; 32],
        beacon_entropy: None,
        local_entropy: vec![3u8; 32],
        timestamp_bits: 0,
        combined_hash: vec![4u8; 32],
    };
    let latency = NetworkLatencyProof {
        peer_latencies: Vec::new(),
        average_latency_ms_bits: 20.0f64.to_bits(),
        latency_variance_bits: 4.0f64.to_bits(),
        measurement_time_bits: 0,
        location_proof: None,
    };
    let commitment = generator
        .generate_enhanced_physical_access_commitment(100.0f64.to_bits(), vec![5u8; 32], entropy, enhanced_selection(7), 1000, latency)
        .unwrap();
    let accepted = generator
        .verify_enhanced_physical_access_commitment(&commitment, &key, &enhanced_selection(7), true, true)
        .unwrap();
    assert!(accepted);
    let other = generator
        .verify_enhanced_physical_access_commitment(&commitment, &key, &enhanced_selection(8), true, true)
        .unwrap();
    assert!(!other);
}

#[test]
fn derived_public_key_verifies_signatures_and_shared_proofs() {
    let private_key = [1u8; 32];
    let public_key = derive_public_key(&private_key).unwrap();
    let expected = {
        let secret = ed25519_dalek::SecretKey::from_bytes(&private_key).unwrap();
        ed25519_dalek::PublicKey::from(&secret).to_bytes().to_vec()
    };
    assert_eq!(public_key, expected);
    assert_ne!(public_key, private_key.to_vec());
    let signature = sign_data(&private_key, b"data").unwrap();
    assert_eq!(verify_signature(&public_key, b"data", &signature).unwrap(), true);
    assert!(matches!(derive_public_key(&[1u8; 31]), Err(HashChainError::InvalidPrivateKeySize(31))));
}

#[test]
fn group_and_region_registries_name_each_entry_once() {
    let mut groups = storage_continuity::groups::GroupManager::new();
    for i in 0..2500u32 {
        let mut chain_id = vec![0u8; 32];
        chain_id[..4].copy_from_slice(&i.to_be_bytes());
        groups.assign_chain_to_group(chain_id).unwrap();
    }
    let ids: Vec<String> = groups.groups.iter().map(|g| g.group_id.clone()).collect();
    assert_eq!(ids, vec!["group_000000", "group_000001", "group_000002"]);
    assert_eq!(groups.next_group_counter, 3);

    let mut regions = storage_continuity::regions::RegionManager::new();
    for i in 0..25u32 {
        regions.assign_group_to_region(format!("group_{:06}", i)).unwrap();
    }
    let ids: Vec<String> = regions.regions.iter().map(|r| r.region_id.clone()).collect();
    assert_eq!(ids, vec!["region_000", "region_001", "region_002"]);
    assert_eq!(regions.next_region_counter, 3);
}
