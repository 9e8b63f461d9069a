//! Ownership, anchored and physical-access commitments, and the hashes that
//! bind them.
use vstd::prelude::*;
use vstd::string::StringSliceAdditionalSpecFns;

use crate::bytes::{be32, be64, u32_to_be_bytes, u64_to_be_bytes};
use crate::chunk_selection::{append_be32_all, be32_concat};
use crate::consts::{CHUNKS_PER_BLOCK, CHUNK_SIZE_BYTES};
use crate::crypto::{sha256, sha256_spec};
use crate::errors::{HashChainError, HashChainResult};
use crate::seqs::{
    all_have_len, all_of_len, append_all_bytes, append_bytes, byte_views, bytes_equal, copy_byte_vecs, copy_bytes,
    copy_u32s, flatten_bytes,
};
use crate::types::{
    AnchoredOwnershipCommitment, AvailabilityResponse, BlockCommitment, EnhancedOwnershipCommitment,
    OwnershipCommitment, PhysicalAccessCommitment,
};
use crate::utils::{validate_block_hash, validate_public_key};

verus! {

/// An argument error with the given reason.
pub(crate) fn invalid_argument(reason: &str) -> (e: HashChainError)
    ensures
        e is InvalidArgument,
{
    HashChainError::InvalidArgument { reason: reason.to_owned() }
}

/// SHA-256 of the data hash followed by the public key.
pub open spec fn ownership_hash(public_key: Seq<u8>, data_hash: Seq<u8>) -> Seq<u8> {
    sha256_spec(data_hash + public_key)
}

/// Binds a 32-byte data hash to a 32-byte public key.
///
/// A key of another size gives `InvalidPublicKeySize`; then a data hash of
/// another size gives an argument error.
pub fn create_ownership_commitment_internal(public_key: Vec<u8>, data_hash: Vec<u8>) -> (r: HashChainResult<
    OwnershipCommitment,
>)
    ensures
        public_key@.len() != 32 ==> r == Err::<OwnershipCommitment, HashChainError>(
            HashChainError::InvalidPublicKeySize(public_key@.len() as usize),
        ),
        public_key@.len() == 32 && data_hash@.len() != 32 ==> (r matches Err(e) && e is InvalidArgument),
        public_key@.len() == 32 && data_hash@.len() == 32 ==> (r matches Ok(c) && {
            &&& c.public_key@ == public_key@
            &&& c.data_hash@ == data_hash@
            &&& c.commitment_hash@ == ownership_hash(public_key@, data_hash@)
        }),
{
    validate_public_key(&public_key)?;
    if data_hash.len() != 32 {
        return Err(invalid_argument("Data hash must be 32 bytes"));
    }
    let mut commitment_data: Vec<u8> = Vec::new();
    append_bytes(&mut commitment_data, data_hash.as_slice());
    append_bytes(&mut commitment_data, public_key.as_slice());
    assert(commitment_data@ =~= data_hash@ + public_key@);
    let commitment_hash = sha256(commitment_data.as_slice());
    Ok(OwnershipCommitment { public_key, data_hash, commitment_hash })
}

/// SHA-256 of the ownership commitment hash followed by the block hash.
pub open spec fn anchored_hash(commitment_hash: Seq<u8>, block_hash: Seq<u8>) -> Seq<u8> {
    sha256_spec(commitment_hash + block_hash)
}

/// Anchors an ownership commitment at a block. A block hash that is not 32
/// bytes gives `InvalidBlockHashSize`.
pub fn create_anchored_ownership_commitment_internal(
    ownership_commitment: OwnershipCommitment,
    block_commitment: BlockCommitment,
) -> (r: HashChainResult<AnchoredOwnershipCommitment>)
    ensures
        block_commitment.block_hash@.len() != 32 ==> r == Err::<AnchoredOwnershipCommitment, HashChainError>(
            HashChainError::InvalidBlockHashSize(block_commitment.block_hash@.len() as usize),
        ),
        block_commitment.block_hash@.len() == 32 ==> (r matches Ok(a) && {
            &&& a.ownership_commitment == ownership_commitment
            &&& a.block_commitment == block_commitment
            &&& a.anchored_hash@ == anchored_hash(ownership_commitment.commitment_hash@, block_commitment.block_hash@)
            &&& a.anchored_hash@.len() == 32
        }),
{
    validate_block_hash(&block_commitment.block_hash)?;
    let mut anchored_data: Vec<u8> = Vec::new();
    append_bytes(&mut anchored_data, ownership_commitment.commitment_hash.as_slice());
    append_bytes(&mut anchored_data, block_commitment.block_hash.as_slice());
    let anchored_hash = sha256(anchored_data.as_slice());
    Ok(AnchoredOwnershipCommitment { ownership_commitment, block_commitment, anchored_hash })
}

/// The bytes a physical-access commitment hash covers: previous commitment,
/// block hash, height (big-endian), each chunk index (big-endian) and each
/// chunk hash, in that order.
pub open spec fn physical_access_input(
    previous_commitment: Seq<u8>,
    block_hash: Seq<u8>,
    block_height: u64,
    selected_chunks: Seq<u32>,
    chunk_hashes: Seq<Seq<u8>>,
) -> Seq<u8> {
    previous_commitment + block_hash + be64(block_height) + be32_concat(selected_chunks) + flatten_bytes(
        chunk_hashes,
    )
}

/// The hash a physical-access commitment with these fields must carry.
pub open spec fn physical_access_hash(
    previous_commitment: Seq<u8>,
    block_hash: Seq<u8>,
    block_height: u64,
    selected_chunks: Seq<u32>,
    chunk_hashes: Seq<Seq<u8>>,
) -> Seq<u8> {
    sha256_spec(physical_access_input(previous_commitment, block_hash, block_height, selected_chunks, chunk_hashes))
}

/// The hash that a commitment's own fields determine.
pub open spec fn expected_commitment_hash(c: PhysicalAccessCommitment) -> Seq<u8> {
    physical_access_hash(
        c.previous_commitment@,
        c.block_hash@,
        c.block_height,
        c.selected_chunks@,
        byte_views(c.chunk_hashes@),
    )
}

/// Whether the arguments of a physical-access commitment are well formed:
/// 32-byte block hash and previous commitment, exactly `CHUNKS_PER_BLOCK`
/// chunk indices with as many 32-byte chunk hashes.
pub open spec fn physical_access_args_valid(
    previous_commitment: Seq<u8>,
    block_hash: Seq<u8>,
    selected_chunks: Seq<u32>,
    chunk_hashes: Seq<Seq<u8>>,
) -> bool {
    &&& block_hash.len() == 32
    &&& previous_commitment.len() == 32
    &&& selected_chunks.len() == chunk_hashes.len()
    &&& selected_chunks.len() == CHUNKS_PER_BLOCK
    &&& all_of_len(chunk_hashes, 32)
}

/// Hashes the commitment fields in the order `physical_access_input` gives.
fn hash_physical_access(
    previous_commitment: &Vec<u8>,
    block_hash: &Vec<u8>,
    block_height: u64,
    selected_chunks: &Vec<u32>,
    chunk_hashes: &Vec<Vec<u8>>,
) -> (h: Vec<u8>)
    ensures
        h@ == physical_access_hash(
            previous_commitment@,
            block_hash@,
            block_height,
            selected_chunks@,
            byte_views(chunk_hashes@),
        ),
        h@.len() == 32,
{
    let mut commitment_data: Vec<u8> = Vec::new();
    append_bytes(&mut commitment_data, previous_commitment.as_slice());
    append_bytes(&mut commitment_data, block_hash.as_slice());
    append_bytes(&mut commitment_data, u64_to_be_bytes(block_height).as_slice());
    append_be32_all(&mut commitment_data, selected_chunks);
    append_all_bytes(&mut commitment_data, chunk_hashes);
    assert(commitment_data@ =~= physical_access_input(
        previous_commitment@,
        block_hash@,
        block_height,
        selected_chunks@,
        byte_views(chunk_hashes@),
    ));
    sha256(commitment_data.as_slice())
}

/// Creates the commitment that proves access to the selected chunks at a
/// block.
///
/// Checks, in this order: the block hash is 32 bytes
/// (`InvalidBlockHashSize`), the previous commitment is 32 bytes, indices and
/// hashes are as many, there are `CHUNKS_PER_BLOCK` of them, and every chunk
/// hash is 32 bytes (argument errors).
pub fn create_physical_access_commitment_internal(
    previous_commitment: Vec<u8>,
    block_hash: Vec<u8>,
    block_height: u64,
    selected_chunks: Vec<u32>,
    chunk_hashes: Vec<Vec<u8>>,
) -> (r: HashChainResult<PhysicalAccessCommitment>)
    ensures
        block_hash@.len() != 32 ==> r == Err::<PhysicalAccessCommitment, HashChainError>(
            HashChainError::InvalidBlockHashSize(block_hash@.len() as usize),
        ),
        block_hash@.len() == 32 && !physical_access_args_valid(
            previous_commitment@,
            block_hash@,
            selected_chunks@,
            byte_views(chunk_hashes@),
        ) ==> (r matches Err(e) && e is InvalidArgument),
        physical_access_args_valid(previous_commitment@, block_hash@, selected_chunks@, byte_views(chunk_hashes@))
            ==> (r matches Ok(c) && {
            &&& c.block_height == block_height
            &&& c.previous_commitment@ == previous_commitment@
            &&& c.block_hash@ == block_hash@
            &&& c.selected_chunks@ == selected_chunks@
            &&& byte_views(c.chunk_hashes@) == byte_views(chunk_hashes@)
            &&& c.commitment_hash@ == expected_commitment_hash(c)
        }),
{
    validate_block_hash(&block_hash)?;
    if previous_commitment.len() != 32 {
        return Err(invalid_argument("Previous commitment must be 32 bytes"));
    }
    if selected_chunks.len() != chunk_hashes.len() {
        return Err(invalid_argument("Selected chunks and chunk hashes must have same length"));
    }
    if selected_chunks.len() != CHUNKS_PER_BLOCK as usize {
        return Err(invalid_argument("Must select exactly the number of chunks per block"));
    }
    if !all_have_len(&chunk_hashes, 32) {
        return Err(invalid_argument("Every chunk hash must be 32 bytes"));
    }
    let commitment_hash = hash_physical_access(
        &previous_commitment,
        &block_hash,
        block_height,
        &selected_chunks,
        &chunk_hashes,
    );
    Ok(PhysicalAccessCommitment {
        block_height,
        previous_commitment,
        block_hash,
        selected_chunks,
        chunk_hashes,
        commitment_hash,
    })
}

/// Recomputes the hash that a commitment's fields determine. Never fails.
pub fn calculate_commitment_hash_internal(commitment: &PhysicalAccessCommitment) -> (r: HashChainResult<Vec<u8>>)
    ensures
        r matches Ok(h) && h@ == expected_commitment_hash(*commitment),
{
    Ok(
        hash_physical_access(
            &commitment.previous_commitment,
            &commitment.block_hash,
            commitment.block_height,
            &commitment.selected_chunks,
            &commitment.chunk_hashes,
        ),
    )
}

/// Whether the stored hash of a commitment is the one its fields determine.
pub fn verify_physical_access_commitment(commitment: &PhysicalAccessCommitment) -> (r: HashChainResult<bool>)
    ensures
        r matches Ok(b) && b == (commitment.commitment_hash@ == expected_commitment_hash(*commitment)),
        r matches Ok(true) ==> commitment.commitment_hash@ == sha256_spec(
            commitment.previous_commitment@ + commitment.block_hash@ + be64(commitment.block_height) + be32_concat(
                commitment.selected_chunks@,
            ) + flatten_bytes(byte_views(commitment.chunk_hashes@)),
        ),
{
    let calculated = calculate_commitment_hash_internal(commitment)?;
    Ok(bytes_equal(calculated.as_slice(), commitment.commitment_hash.as_slice()))
}

/// A commitment holding the hash computed from its own fields verifies:
/// the hash that creation stores is the one verification recomputes.
pub proof fn lemma_created_commitment_verifies(
    previous_commitment: Seq<u8>,
    block_hash: Seq<u8>,
    block_height: u64,
    selected_chunks: Seq<u32>,
    chunk_hashes: Seq<Seq<u8>>,
    c: PhysicalAccessCommitment,
)
    requires
        c.block_height == block_height,
        c.previous_commitment@ == previous_commitment,
        c.block_hash@ == block_hash,
        c.selected_chunks@ == selected_chunks,
        byte_views(c.chunk_hashes@) == chunk_hashes,
        c.commitment_hash@ == physical_access_hash(
            previous_commitment,
            block_hash,
            block_height,
            selected_chunks,
            chunk_hashes,
        ),
    ensures
        c.commitment_hash@ == expected_commitment_hash(c),
{
}

/// Encoding parameters derived from a prover key: SHA-256 of the key, the
/// tag `enhanced_encoding_v2` and the encoding version 1 (big-endian).
pub open spec fn encoding_params_spec(prover_key: Seq<u8>) -> Seq<u8> {
    sha256_spec(prover_key + "enhanced_encoding_v2".spec_bytes() + be32(1))
}

/// Derives the encoding parameters of a prover key.
pub fn generate_encoding_params(prover_key: &Vec<u8>) -> (params: Vec<u8>)
    ensures
        params@ == encoding_params_spec(prover_key@),
        params@.len() == 32,
{
    let mut input: Vec<u8> = Vec::new();
    append_bytes(&mut input, prover_key.as_slice());
    append_bytes(&mut input, "enhanced_encoding_v2".as_bytes());
    append_bytes(&mut input, u32_to_be_bytes(1).as_slice());
    assert(input@ =~= prover_key@ + "enhanced_encoding_v2".spec_bytes() + be32(1));
    sha256(input.as_slice())
}

/// The hash of an enhanced ownership commitment: SHA-256 of the prover key,
/// encoded hash, original hash, encoding parameters and the tag
/// `enhanced_ownership_v2`.
pub open spec fn enhanced_ownership_hash(prover_key: Seq<u8>, encoded: Seq<u8>, original: Seq<u8>) -> Seq<u8> {
    sha256_spec(
        prover_key + encoded + original + encoding_params_spec(prover_key)
            + "enhanced_ownership_v2".spec_bytes(),
    )
}

/// Commits to a prover-specific encoding of a file. Never fails.
pub fn generate_enhanced_ownership_commitment(
    original_data_hash: Vec<u8>,
    encoded_data_hash: Vec<u8>,
    prover_key: Vec<u8>,
) -> (r: HashChainResult<EnhancedOwnershipCommitment>)
    ensures
        r matches Ok(c) && {
            &&& c.public_key@ == prover_key@
            &&& c.encoded_data_hash@ == encoded_data_hash@
            &&& c.original_data_hash@ == original_data_hash@
            &&& c.encoding_params@ == encoding_params_spec(prover_key@)
            &&& c.commitment_hash@ == enhanced_ownership_hash(
                prover_key@,
                encoded_data_hash@,
                original_data_hash@,
            )
        },
{
    let encoding_params = generate_encoding_params(&prover_key);
    let mut input: Vec<u8> = Vec::new();
    append_bytes(&mut input, prover_key.as_slice());
    append_bytes(&mut input, encoded_data_hash.as_slice());
    append_bytes(&mut input, original_data_hash.as_slice());
    append_bytes(&mut input, encoding_params.as_slice());
    append_bytes(&mut input, "enhanced_ownership_v2".as_bytes());
    assert(input@ =~= prover_key@ + encoded_data_hash@ + original_data_hash@ + encoding_params_spec(prover_key@)
        + "enhanced_ownership_v2".spec_bytes());
    let commitment_hash = sha256(input.as_slice());
    Ok(EnhancedOwnershipCommitment {
        public_key: prover_key,
        encoded_data_hash,
        original_data_hash,
        encoding_params,
        commitment_hash,
    })
}

/// The VDF input of a commitment: SHA-256 of the previous commitment, the
/// combined entropy hash, each chunk hash and the tag `enhanced_vdf_input_v2`.
pub open spec fn vdf_input_spec(previous: Seq<u8>, combined_hash: Seq<u8>, chunk_hashes: Seq<Seq<u8>>) -> Seq<u8> {
    sha256_spec(previous + combined_hash + flatten_bytes(chunk_hashes) + "enhanced_vdf_input_v2".spec_bytes())
}

/// Derives the 32-byte VDF input from the commitment components.
pub fn create_vdf_input(previous_commitment: &Vec<u8>, combined_hash: &Vec<u8>, chunk_hashes: &Vec<Vec<u8>>) -> (r:
    HashChainResult<Vec<u8>>)
    ensures
        r matches Ok(v) && v@ == vdf_input_spec(previous_commitment@, combined_hash@, byte_views(chunk_hashes@))
            && v@.len() == 32,
{
    let mut input: Vec<u8> = Vec::new();
    append_bytes(&mut input, previous_commitment.as_slice());
    append_bytes(&mut input, combined_hash.as_slice());
    append_all_bytes(&mut input, chunk_hashes);
    append_bytes(&mut input, "enhanced_vdf_input_v2".as_bytes());
    assert(input@ =~= previous_commitment@ + combined_hash@ + flatten_bytes(byte_views(chunk_hashes@))
        + "enhanced_vdf_input_v2".spec_bytes());
    Ok(sha256(input.as_slice()))
}

/// The stand-in content of chunk `chunk_index` used when no file is read:
/// byte `i` is `(chunk_index + i) mod 256`.
pub open spec fn simulated_chunk(chunk_index: u32) -> Seq<u8> {
    Seq::new(CHUNK_SIZE_BYTES as nat, |i: int| ((chunk_index + i) % 256) as u8)
}

/// Produces the stand-in content of a chunk (see `simulated_chunk`); the
/// index arithmetic wraps at 32 bits as the original `u32` sum does.
pub fn read_simulated_chunk(chunk_index: u32) -> (r: HashChainResult<Vec<u8>>)
    ensures
        r matches Ok(data) && data@.len() == CHUNK_SIZE_BYTES && forall|i: int|
            0 <= i < CHUNK_SIZE_BYTES ==> #[trigger] data@[i] == (((chunk_index as int + i) % 0x1_0000_0000) % 256) as u8,
{
    let mut data: Vec<u8> = Vec::new();
    let mut i: u32 = 0;
    while i < CHUNK_SIZE_BYTES
        invariant
            i <= CHUNK_SIZE_BYTES,
            data@.len() == i,
            forall|j: int| 0 <= j < i ==> #[trigger] data@[j] == (((chunk_index as int + j) % 0x1_0000_0000) % 256) as u8,
        decreases CHUNK_SIZE_BYTES - i,
    {
        let v = chunk_index.wrapping_add(i) % 256;
        data.push(v as u8);
        i = i + 1;
    }
    Ok(data)
}

/// Checks the shape of availability responses: each carries a full chunk and
/// a 32-byte authenticity proof.
pub fn verify_availability_responses(responses: &Vec<AvailabilityResponse>) -> (r: HashChainResult<bool>)
    ensures
        r matches Ok(b) && b == forall|i: int|
            0 <= i < responses@.len() ==> #[trigger] responses@[i].chunk_data@.len() == CHUNK_SIZE_BYTES
                && responses@[i].authenticity_proof@.len() == 32,
{
    let mut i: usize = 0;
    while i < responses.len()
        invariant
            i <= responses@.len(),
            forall|j: int|
                0 <= j < i ==> #[trigger] responses@[j].chunk_data@.len() == CHUNK_SIZE_BYTES
                    && responses@[j].authenticity_proof@.len() == 32,
        decreases responses@.len() - i,
    {
        if responses[i].chunk_data.len() != CHUNK_SIZE_BYTES as usize {
            return Ok(false);
        }
        if responses[i].authenticity_proof.len() != 32 {
            return Ok(false);
        }
        i = i + 1;
    }
    Ok(true)
}

/// The hash of a generated commitment: SHA-256 of the height bits
/// (big-endian), the previous commitment, the combined entropy hash, the
/// selection's verification hash and unpredictability proof, the chunk
/// hashes, the VDF output, the average latency bits (big-endian) and the tag
/// `enhanced_physical_access_v2`.
pub open spec fn enhanced_commitment_hash_spec(
    block_height_bits: u64,
    previous: Seq<u8>,
    combined_hash: Seq<u8>,
    verification_hash: Seq<u8>,
    unpredictability_proof: Seq<u8>,
    chunk_hashes: Seq<Seq<u8>>,
    vdf_output: Seq<u8>,
    average_latency_bits: u64,
) -> Seq<u8> {
    sha256_spec(
        be64(block_height_bits) + previous + combined_hash + verification_hash + unpredictability_proof
            + flatten_bytes(chunk_hashes) + vdf_output + be64(average_latency_bits)
            + "enhanced_physical_access_v2".spec_bytes(),
    )
}

/// Checks the hash of an enhanced physical-access commitment: it must be
/// `enhanced_commitment_hash_spec` of the height, previous commitment,
/// combined entropy hash, selection verification hash and unpredictability
/// proof, chunk hashes, VDF output and average latency.
pub fn verify_enhanced_commitment_hash(
    block_height_bits: u64,
    previous_commitment: &Vec<u8>,
    combined_hash: &Vec<u8>,
    verification_hash: &Vec<u8>,
    unpredictability_proof: &Vec<u8>,
    chunk_hashes: &Vec<Vec<u8>>,
    vdf_output: &Vec<u8>,
    average_latency_bits: u64,
    commitment_hash: &Vec<u8>,
) -> (r: HashChainResult<bool>)
    ensures
        r matches Ok(b) && b == (commitment_hash@ == enhanced_commitment_hash_spec(
            block_height_bits,
            previous_commitment@,
            combined_hash@,
            verification_hash@,
            unpredictability_proof@,
            byte_views(chunk_hashes@),
            vdf_output@,
            average_latency_bits,
        )),
{
    let mut input: Vec<u8> = Vec::new();
    append_bytes(&mut input, u64_to_be_bytes(block_height_bits).as_slice());
    append_bytes(&mut input, previous_commitment.as_slice());
    append_bytes(&mut input, combined_hash.as_slice());
    append_bytes(&mut input, verification_hash.as_slice());
    append_bytes(&mut input, unpredictability_proof.as_slice());
    append_all_bytes(&mut input, chunk_hashes);
    append_bytes(&mut input, vdf_output.as_slice());
    append_bytes(&mut input, u64_to_be_bytes(average_latency_bits).as_slice());
    append_bytes(&mut input, "enhanced_physical_access_v2".as_bytes());
    assert(input@ =~= be64(block_height_bits) + previous_commitment@ + combined_hash@ + verification_hash@
        + unpredictability_proof@ + flatten_bytes(byte_views(chunk_hashes@)) + vdf_output@ + be64(average_latency_bits)
        + "enhanced_physical_access_v2".spec_bytes());
    let expected = sha256(input.as_slice());
    Ok(bytes_equal(commitment_hash.as_slice(), expected.as_slice()))
}

/// Whether two commitments hold the same values.
pub open spec fn same_commitment(a: PhysicalAccessCommitment, b: PhysicalAccessCommitment) -> bool {
    &&& a.block_height == b.block_height
    &&& a.previous_commitment@ == b.previous_commitment@
    &&& a.block_hash@ == b.block_hash@
    &&& a.selected_chunks@ == b.selected_chunks@
    &&& byte_views(a.chunk_hashes@) == byte_views(b.chunk_hashes@)
    &&& a.commitment_hash@ == b.commitment_hash@
}

/// A copy of a commitment.
pub fn copy_commitment(c: &PhysicalAccessCommitment) -> (r: PhysicalAccessCommitment)
    ensures
        same_commitment(r, *c),
{
    PhysicalAccessCommitment {
        block_height: c.block_height,
        previous_commitment: copy_bytes(c.previous_commitment.as_slice()),
        block_hash: copy_bytes(c.block_hash.as_slice()),
        selected_chunks: copy_u32s(&c.selected_chunks),
        chunk_hashes: copy_byte_vecs(&c.chunk_hashes),
        commitment_hash: copy_bytes(c.commitment_hash.as_slice()),
    }
}

/// The concatenation of byte sequences of length `n` has length `n` times
/// their number.
proof fn lemma_flatten_len(s: Seq<Seq<u8>>, n: nat)
    requires
        forall|i: int| 0 <= i < s.len() ==> #[trigger] s[i].len() == n,
    ensures
        flatten_bytes(s).len() == n * s.len(),
    decreases s.len(),
{
    if s.len() > 0 {
        lemma_flatten_len(s.drop_last(), n);
        assert(flatten_bytes(s).len() == n * (s.len() - 1) + n);
        assert(n * (s.len() - 1) + n == n * s.len()) by (nonlinear_arith);
    }
}

/// Lists of byte sequences that all have one length, equally many, are
/// equal when their concatenations are.
proof fn lemma_flatten_injective(a: Seq<Seq<u8>>, b: Seq<Seq<u8>>, n: nat)
    requires
        a.len() == b.len(),
        forall|i: int| 0 <= i < a.len() ==> #[trigger] a[i].len() == n,
        forall|i: int| 0 <= i < b.len() ==> #[trigger] b[i].len() == n,
        flatten_bytes(a) == flatten_bytes(b),
    ensures
        a == b,
    decreases a.len(),
{
    if a.len() > 0 {
        let a0 = a.drop_last();
        let b0 = b.drop_last();
        lemma_flatten_len(a0, n);
        lemma_flatten_len(b0, n);
        let fa = flatten_bytes(a0);
        let fb = flatten_bytes(b0);
        let whole = flatten_bytes(a);
        assert(whole == fa + a.last());
        assert(whole == fb + b.last());
        assert(fa =~= whole.subrange(0, fa.len() as int));
        assert(fb =~= whole.subrange(0, fa.len() as int));
        assert(a.last() =~= whole.subrange(fa.len() as int, whole.len() as int));
        assert(b.last() =~= whole.subrange(fa.len() as int, whole.len() as int));
        lemma_flatten_injective(a0, b0, n);
        assert(a =~= a0.push(a.last()));
        assert(b =~= b0.push(b.last()));
    } else {
        assert(a =~= b);
    }
}

/// The hash a physical-access commitment must carry covers every chunk
/// hash: two commitments that agree on every other field, with as many
/// 32-byte chunk hashes each, hash the same input only when their chunk
/// hashes are the same. So altering a proven chunk hash changes what
/// `verify_physical_access_commitment` hashes, and the stored hash no
/// longer verifies unless SHA-256 collides.
pub proof fn lemma_commitment_input_covers_chunk_hashes(c1: PhysicalAccessCommitment, c2: PhysicalAccessCommitment)
    requires
        c1.previous_commitment@ == c2.previous_commitment@,
        c1.block_hash@ == c2.block_hash@,
        c1.block_height == c2.block_height,
        c1.selected_chunks@ == c2.selected_chunks@,
        c1.chunk_hashes@.len() == c2.chunk_hashes@.len(),
        forall|i: int| 0 <= i < c1.chunk_hashes@.len() ==> #[trigger] c1.chunk_hashes@[i]@.len() == 32,
        forall|i: int| 0 <= i < c2.chunk_hashes@.len() ==> #[trigger] c2.chunk_hashes@[i]@.len() == 32,
        exists|i: int| 0 <= i < c1.chunk_hashes@.len() && #[trigger] c1.chunk_hashes@[i]@ != c2.chunk_hashes@[i]@,
    ensures
        physical_access_input(
            c1.previous_commitment@,
            c1.block_hash@,
            c1.block_height,
            c1.selected_chunks@,
            byte_views(c1.chunk_hashes@),
        ) != physical_access_input(
            c2.previous_commitment@,
            c2.block_hash@,
            c2.block_height,
            c2.selected_chunks@,
            byte_views(c2.chunk_hashes@),
        ),
        expected_commitment_hash(c1) == sha256_spec(
            physical_access_input(
                c1.previous_commitment@,
                c1.block_hash@,
                c1.block_height,
                c1.selected_chunks@,
                byte_views(c1.chunk_hashes@),
            ),
        ),
{
    let h1 = byte_views(c1.chunk_hashes@);
    let h2 = byte_views(c2.chunk_hashes@);
    let i = choose|i: int| 0 <= i < c1.chunk_hashes@.len() && #[trigger] c1.chunk_hashes@[i]@ != c2.chunk_hashes@[i]@;
    assert(h1[i] != h2[i]);
    let head = c1.previous_commitment@ + c1.block_hash@ + be64(c1.block_height) + be32_concat(c1.selected_chunks@);
    let in1 = physical_access_input(
        c1.previous_commitment@,
        c1.block_hash@,
        c1.block_height,
        c1.selected_chunks@,
        h1,
    );
    let in2 = physical_access_input(
        c2.previous_commitment@,
        c2.block_hash@,
        c2.block_height,
        c2.selected_chunks@,
        h2,
    );
    if in1 == in2 {
        assert(in1 == head + flatten_bytes(h1));
        assert(in2 == head + flatten_bytes(h2));
        assert(flatten_bytes(h1) =~= in1.subrange(head.len() as int, in1.len() as int));
        assert(flatten_bytes(h2) =~= in2.subrange(head.len() as int, in2.len() as int));
        assert forall|j: int| 0 <= j < h1.len() implies #[trigger] h1[j].len() == 32 by {
            assert(c1.chunk_hashes@[j]@.len() == 32);
        }
        assert forall|j: int| 0 <= j < h2.len() implies #[trigger] h2[j].len() == 32 by {
            assert(c2.chunk_hashes@[j]@.len() == 32);
        }
        lemma_flatten_injective(h1, h2, 32);
    }
}

} // verus!
