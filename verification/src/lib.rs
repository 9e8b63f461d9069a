//! Proof-of-storage continuity: hash chains of physical-access commitments,
//! deterministic chunk selection, prover-specific file encoding, hierarchical
//! (group / region / global) temporal proofs and the VDF state machine that
//! signs blocks.

pub mod consts;
pub mod bytes;
pub mod crypto;
pub mod errors;
pub mod seqs;
pub mod utils;
pub mod chunk_selection;
pub mod types;
pub mod entropy;
pub mod commitments;
pub mod verification;
pub mod encoding;
pub mod storage;
pub mod json;
pub mod header;
pub mod ids;
pub mod hashchain;
pub mod merkle;
pub mod groups;
pub mod regions;
pub mod ordering;
pub mod proofs;
pub mod manager;
pub mod vdf;
pub mod memory_hard;
pub mod lifecycle;
pub mod compact;
pub mod consensus;
pub mod api;
pub mod enhanced;
pub mod signing;
pub mod vdf_processor;
pub mod availability;
