//! The ultra-compact audit proof and its fixed 136-byte little-endian wire
//! format.
use vstd::prelude::*;

use crate::bytes::{
    from_le32, from_le64, le32, le64, lemma_le32_of_bytes, lemma_le32_roundtrip, lemma_le64_of_bytes,
    lemma_le64_roundtrip, u32_from_le_at, u32_to_le_bytes, u64_from_le_at, u64_to_le_bytes,
};
use crate::errors::{HashChainError, HashChainResult};
use crate::seqs::append_bytes;

verus! {

/// Size of a serialised ultra-compact proof.
pub const ULTRA_COMPACT_PROOF_SIZE: usize = 136;

/// Ultra-compact proof of a chain for audits. The floating-point fields are
/// carried as the bit patterns of their `f64` values.
pub struct UltraCompactProof {
    /// Chain hash (32 bytes).
    pub chain_hash: Vec<u8>,
    /// Chain length (bit pattern of an `f64`).
    pub chain_length_bits: u64,
    /// Reference of the global proof (32 bytes).
    pub global_proof_reference: Vec<u8>,
    /// Global block height (bit pattern of an `f64`).
    pub global_block_height_bits: u64,
    /// Hierarchical position (32 bytes).
    pub hierarchical_position: Vec<u8>,
    /// Number of chains in the system.
    pub total_chains_count: u32,
    /// Proof time (bit pattern of an `f64`).
    pub proof_timestamp_bits: u64,
    /// Proof nonce (12 bytes).
    pub proof_nonce: Vec<u8>,
}

/// The wire form of a proof: chain hash, chain length, global proof
/// reference, global block height, hierarchical position, chain count,
/// timestamp and nonce, numbers little-endian.
pub open spec fn compact_bytes(p: UltraCompactProof) -> Seq<u8> {
    p.chain_hash@ + le64(p.chain_length_bits) + p.global_proof_reference@ + le64(p.global_block_height_bits)
        + p.hierarchical_position@ + le32(p.total_chains_count) + le64(p.proof_timestamp_bits)
        + p.proof_nonce@
}

/// Every byte field has its nominal size (32, 32, 32 and 12 bytes).
pub open spec fn compact_fields_sized(p: UltraCompactProof) -> bool {
    &&& p.chain_hash@.len() == 32
    &&& p.global_proof_reference@.len() == 32
    &&& p.hierarchical_position@.len() == 32
    &&& p.proof_nonce@.len() == 12
}

/// `p` is what the 136 bytes `d` decode to: each field is read from its
/// offset.
pub open spec fn compact_decodes_to(d: Seq<u8>, p: UltraCompactProof) -> bool {
    &&& p.chain_hash@ == d.subrange(0, 32)
    &&& p.chain_length_bits == from_le64(d.subrange(32, 40))
    &&& p.global_proof_reference@ == d.subrange(40, 72)
    &&& p.global_block_height_bits == from_le64(d.subrange(72, 80))
    &&& p.hierarchical_position@ == d.subrange(80, 112)
    &&& p.total_chains_count == from_le32(d.subrange(112, 116))
    &&& p.proof_timestamp_bits == from_le64(d.subrange(116, 124))
    &&& p.proof_nonce@ == d.subrange(124, 136)
}

/// Two proofs have the same fields.
pub open spec fn same_compact(a: UltraCompactProof, b: UltraCompactProof) -> bool {
    &&& a.chain_hash@ == b.chain_hash@
    &&& a.chain_length_bits == b.chain_length_bits
    &&& a.global_proof_reference@ == b.global_proof_reference@
    &&& a.global_block_height_bits == b.global_block_height_bits
    &&& a.hierarchical_position@ == b.hierarchical_position@
    &&& a.total_chains_count == b.total_chains_count
    &&& a.proof_timestamp_bits == b.proof_timestamp_bits
    &&& a.proof_nonce@ == b.proof_nonce@
}

/// The size error of the wire format.
fn size_error() -> (e: HashChainError)
    ensures
        e is GenericFailure,
{
    HashChainError::GenericFailure { reason: String::from_str("Invalid proof size (expected 136 bytes)") }
}

/// Copies `len` bytes of `d` from `start`.
fn copy_field(d: &Vec<u8>, start: usize, len: usize) -> (r: Vec<u8>)
    requires
        start + len <= d@.len(),
    ensures
        r@ == d@.subrange(start as int, start + len),
{
    let mut r: Vec<u8> = Vec::new();
    let mut k: usize = 0;
    while k < len
        invariant
            k <= len,
            start + len <= d.len(),
            r@ =~= d@.subrange(start as int, start + k),
        decreases len - k,
    {
        r.push(d[start + k]);
        k = k + 1;
    }
    r
}

impl UltraCompactProof {
    /// The 136-byte wire form (`compact_bytes`). Fields whose sizes do not
    /// add up to 136 bytes give a size error.
    pub fn serialize(&self) -> (r: HashChainResult<Vec<u8>>)
        ensures
            compact_bytes(*self).len() == ULTRA_COMPACT_PROOF_SIZE ==> (r matches Ok(d) && d@ == compact_bytes(*self)),
            compact_bytes(*self).len() != ULTRA_COMPACT_PROOF_SIZE ==> (r matches Err(e) && e is GenericFailure),
    {
        let mut data: Vec<u8> = Vec::new();
        append_bytes(&mut data, self.chain_hash.as_slice());
        append_bytes(&mut data, u64_to_le_bytes(self.chain_length_bits).as_slice());
        append_bytes(&mut data, self.global_proof_reference.as_slice());
        append_bytes(&mut data, u64_to_le_bytes(self.global_block_height_bits).as_slice());
        append_bytes(&mut data, self.hierarchical_position.as_slice());
        append_bytes(&mut data, u32_to_le_bytes(self.total_chains_count).as_slice());
        append_bytes(&mut data, u64_to_le_bytes(self.proof_timestamp_bits).as_slice());
        append_bytes(&mut data, self.proof_nonce.as_slice());
        assert(data@ =~= compact_bytes(*self));
        if data.len() != ULTRA_COMPACT_PROOF_SIZE {
            return Err(size_error());
        }
        Ok(data)
    }

    /// Reads a proof from its wire form (`compact_decodes_to`); data that is
    /// not exactly 136 bytes is a size error.
    pub fn deserialize(data: Vec<u8>) -> (r: HashChainResult<UltraCompactProof>)
        ensures
            data@.len() == ULTRA_COMPACT_PROOF_SIZE ==> (r matches Ok(p) && compact_decodes_to(data@, p)),
            data@.len() != ULTRA_COMPACT_PROOF_SIZE ==> (r matches Err(e) && e is GenericFailure),
    {
        if data.len() != ULTRA_COMPACT_PROOF_SIZE {
            return Err(size_error());
        }
        let chain_hash = copy_field(&data, 0, 32);
        let chain_length_bits = u64_from_le_at(data.as_slice(), 32);
        let global_proof_reference = copy_field(&data, 40, 32);
        let global_block_height_bits = u64_from_le_at(data.as_slice(), 72);
        let hierarchical_position = copy_field(&data, 80, 32);
        let total_chains_count = u32_from_le_at(data.as_slice(), 112);
        let proof_timestamp_bits = u64_from_le_at(data.as_slice(), 116);
        let proof_nonce = copy_field(&data, 124, 12);
        Ok(UltraCompactProof {
            chain_hash,
            chain_length_bits,
            global_proof_reference,
            global_block_height_bits,
            hierarchical_position,
            total_chains_count,
            proof_timestamp_bits,
            proof_nonce,
        })
    }
}

/// Decoding the wire form of a proof whose byte fields have their nominal
/// sizes gives back the same proof.
#[verifier::spinoff_prover]
#[verifier::rlimit(40)]
pub proof fn lemma_compact_roundtrip(p: UltraCompactProof, q: UltraCompactProof)
    requires
        compact_fields_sized(p),
        compact_decodes_to(compact_bytes(p), q),
    ensures
        compact_bytes(p).len() == ULTRA_COMPACT_PROOF_SIZE,
        same_compact(q, p),
{
    let d = compact_bytes(p);
    lemma_le64_roundtrip(p.chain_length_bits);
    lemma_le64_roundtrip(p.global_block_height_bits);
    lemma_le64_roundtrip(p.proof_timestamp_bits);
    lemma_le32_roundtrip(p.total_chains_count);
    assert(d.subrange(0, 32) =~= p.chain_hash@);
    assert(d.subrange(32, 40) =~= le64(p.chain_length_bits));
    assert(d.subrange(40, 72) =~= p.global_proof_reference@);
    assert(d.subrange(72, 80) =~= le64(p.global_block_height_bits));
    assert(d.subrange(80, 112) =~= p.hierarchical_position@);
    assert(d.subrange(112, 116) =~= le32(p.total_chains_count));
    assert(d.subrange(116, 124) =~= le64(p.proof_timestamp_bits));
    assert(d.subrange(124, 136) =~= p.proof_nonce@);
}

/// Encoding what 136 bytes decode to gives back the bytes.
#[verifier::spinoff_prover]
pub proof fn lemma_compact_bytes_roundtrip(d: Seq<u8>, q: UltraCompactProof)
    requires
        d.len() == ULTRA_COMPACT_PROOF_SIZE,
        compact_decodes_to(d, q),
    ensures
        compact_bytes(q) == d,
{
    lemma_le64_of_bytes(d.subrange(32, 40));
    lemma_le64_of_bytes(d.subrange(72, 80));
    lemma_le32_of_bytes(d.subrange(112, 116));
    lemma_le64_of_bytes(d.subrange(116, 124));
    assert(compact_bytes(q) =~= d);
}

} // verus!
