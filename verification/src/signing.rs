//! Ed25519 signatures of data and of blocks, and HMAC key derivation.
use vstd::prelude::*;

use crate::bytes::{be64, u64_to_be_bytes};
use crate::crypto::{
    ed25519_public_key, ed25519_public_key_spec, ed25519_sign, ed25519_signature_spec, ed25519_verification_spec, ed25519_verify,
    hmac_sha256, hmac_sha256_spec,
};
use crate::errors::{HashChainError, HashChainResult};
use crate::seqs::append_bytes;

verus! {

/// Signs data with a 32-byte Ed25519 secret key; a key of another size is
/// `InvalidPrivateKeySize`.
pub fn sign_data(private_key: &[u8], data: &[u8]) -> (r: HashChainResult<Vec<u8>>)
    ensures
        private_key@.len() != 32 ==> r == Err::<Vec<u8>, HashChainError>(
            HashChainError::InvalidPrivateKeySize(private_key@.len() as usize),
        ),
        private_key@.len() == 32 ==> (r matches Ok(sig) && sig@ == ed25519_signature_spec(private_key@, data@)
            && sig@.len() == 64),
        r matches Ok(sig) ==> signature_valid(ed25519_public_key_spec(private_key@), data@, sig@),
{
    if private_key.len() != 32 {
        return Err(HashChainError::InvalidPrivateKeySize(private_key.len()));
    }
    match ed25519_sign(private_key, data) {
        Some(sig) => Ok(sig),
        None => Err(HashChainError::InvalidPrivateKeySize(private_key.len())),
    }
}

/// The Ed25519 public key of a 32-byte secret key: the key under which
/// `sign_data` signatures verify. A key of another size is
/// `InvalidPrivateKeySize`.
pub fn derive_public_key(private_key: &[u8]) -> (r: HashChainResult<Vec<u8>>)
    ensures
        private_key@.len() != 32 ==> r == Err::<Vec<u8>, HashChainError>(
            HashChainError::InvalidPrivateKeySize(private_key@.len() as usize),
        ),
        private_key@.len() == 32 ==> (r matches Ok(pk) && pk@ == ed25519_public_key_spec(private_key@)),
{
    match ed25519_public_key(private_key) {
        Some(pk) => Ok(pk),
        None => Err(HashChainError::InvalidPrivateKeySize(private_key.len())),
    }
}

/// Whether a signature check succeeds: a 32-byte key, a 64-byte signature,
/// both parsing, and the signature valid for the data.
pub open spec fn signature_valid(public_key: Seq<u8>, data: Seq<u8>, signature: Seq<u8>) -> bool {
    public_key.len() == 32 && signature.len() == 64 && ed25519_verification_spec(public_key, data, signature) == Some(
        true,
    )
}

/// Verifies an Ed25519 signature. A key that is not 32 bytes is
/// `InvalidPublicKeySize`, a signature that is not 64 bytes
/// `InvalidSignatureSize`, a key or signature that does not parse a
/// cryptographic error; otherwise the result says whether it is valid.
pub fn verify_signature(public_key: &[u8], data: &[u8], signature: &[u8]) -> (r: HashChainResult<bool>)
    ensures
        public_key@.len() != 32 ==> r == Err::<bool, HashChainError>(
            HashChainError::InvalidPublicKeySize(public_key@.len() as usize),
        ),
        public_key@.len() == 32 && signature@.len() != 64 ==> r == Err::<bool, HashChainError>(
            HashChainError::InvalidSignatureSize(signature@.len() as usize),
        ),
        public_key@.len() == 32 && signature@.len() == 64 ==> match ed25519_verification_spec(
            public_key@,
            data@,
            signature@,
        ) {
            Some(b) => r == Ok::<bool, HashChainError>(b),
            None => r matches Err(e) && e is CryptographicError,
        },
        (r == Ok::<bool, HashChainError>(true)) == signature_valid(public_key@, data@, signature@),
{
    if public_key.len() != 32 {
        return Err(HashChainError::InvalidPublicKeySize(public_key.len()));
    }
    if signature.len() != 64 {
        return Err(HashChainError::InvalidSignatureSize(signature.len()));
    }
    match ed25519_verify(public_key, data, signature) {
        Some(valid) => Ok(valid),
        None => Err(HashChainError::CryptographicError(String::from_str("Invalid public key or signature"))),
    }
}

/// The data of a block that is signed: height (big-endian), block hash, VDF
/// state and iteration count (big-endian).
pub open spec fn block_data_spec(block_height: u64, block_hash: Seq<u8>, vdf_state: Seq<u8>, total_iterations: u64) -> Seq<
    u8,
> {
    be64(block_height) + block_hash + vdf_state + be64(total_iterations)
}

/// The data of a block that is signed (`block_data_spec`).
fn block_data(block_height: u64, block_hash: &[u8], vdf_state: &[u8], total_iterations: u64) -> (d: Vec<u8>)
    ensures
        d@ == block_data_spec(block_height, block_hash@, vdf_state@, total_iterations),
{
    let mut data: Vec<u8> = Vec::new();
    append_bytes(&mut data, u64_to_be_bytes(block_height).as_slice());
    append_bytes(&mut data, block_hash);
    append_bytes(&mut data, vdf_state);
    append_bytes(&mut data, u64_to_be_bytes(total_iterations).as_slice());
    assert(data@ =~= block_data_spec(block_height, block_hash@, vdf_state@, total_iterations));
    data
}

/// Signs a block (`block_data_spec`) with a secret key (see `sign_data`).
pub fn sign_block(
    private_key: &[u8],
    block_height: u64,
    block_hash: &[u8],
    vdf_state: &[u8],
    total_iterations: u64,
) -> (r: HashChainResult<Vec<u8>>)
    ensures
        private_key@.len() != 32 ==> r == Err::<Vec<u8>, HashChainError>(
            HashChainError::InvalidPrivateKeySize(private_key@.len() as usize),
        ),
        private_key@.len() == 32 ==> (r matches Ok(sig) && sig@ == ed25519_signature_spec(
            private_key@,
            block_data_spec(block_height, block_hash@, vdf_state@, total_iterations),
        )),
{
    let data = block_data(block_height, block_hash, vdf_state, total_iterations);
    sign_data(private_key, data.as_slice())
}

/// Verifies a block signature (`block_data_spec`, see `verify_signature`).
pub fn verify_block_signature(
    public_key: &[u8],
    block_height: u64,
    block_hash: &[u8],
    vdf_state: &[u8],
    total_iterations: u64,
    signature: &[u8],
) -> (r: HashChainResult<bool>)
    ensures
        public_key@.len() != 32 ==> r == Err::<bool, HashChainError>(
            HashChainError::InvalidPublicKeySize(public_key@.len() as usize),
        ),
        public_key@.len() == 32 && signature@.len() != 64 ==> r == Err::<bool, HashChainError>(
            HashChainError::InvalidSignatureSize(signature@.len() as usize),
        ),
        (r == Ok::<bool, HashChainError>(true)) == signature_valid(
            public_key@,
            block_data_spec(block_height, block_hash@, vdf_state@, total_iterations),
            signature@,
        ),
{
    let data = block_data(block_height, block_hash, vdf_state, total_iterations);
    verify_signature(public_key, data.as_slice(), signature)
}

/// Derives a 32-byte key: HMAC-SHA256 under the master key of the context
/// followed by the UTF-8 bytes of `info`.
pub fn derive_key(master_key: &[u8], context: &[u8], info: &str) -> (k: Vec<u8>)
    ensures
        k@ == hmac_sha256_spec(master_key@, context@ + vstd::utf8::encode_utf8(info@)),
        k@.len() == 32,
{
    let mut message: Vec<u8> = Vec::new();
    append_bytes(&mut message, context);
    append_bytes(&mut message, info.as_bytes());
    hmac_sha256(master_key, message.as_slice())
}

} // verus!
