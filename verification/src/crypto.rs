//! Hash functions, signatures, Merkle roots and hex encoding, called from the
//! outside crates that implement them. Every item here is trusted: its
//! contract is read off the outside crate's source, not proved.
use vstd::prelude::*;

use blake3;
use crc::{Crc, CRC_32_ISO_HDLC};
use ed25519_dalek::{Keypair, PublicKey, SecretKey, Signature, Signer, Verifier};
use hmac::{Hmac, Mac, NewMac};
use rand::{Rng, SeedableRng};
use rand_chacha::ChaCha20Rng;
use rs_merkle::{algorithms::Sha256 as MerkleSha256, MerkleTree};
use sha2::{Digest, Sha256};
use sha3::Keccak256;

verus! {

/// The SHA-256 digest of a byte sequence.
pub uninterp spec fn sha256_spec(data: Seq<u8>) -> Seq<u8>;

/// The BLAKE3 (32-byte) digest of a byte sequence.
pub uninterp spec fn blake3_spec(data: Seq<u8>) -> Seq<u8>;

/// The Keccak-256 digest of a byte sequence.
pub uninterp spec fn keccak256_spec(data: Seq<u8>) -> Seq<u8>;

/// The CRC-32 (ISO-HDLC) checksum of a byte sequence.
pub uninterp spec fn crc32_spec(data: Seq<u8>) -> u32;

/// HMAC-SHA256 of a message under a key.
pub uninterp spec fn hmac_sha256_spec(key: Seq<u8>, message: Seq<u8>) -> Seq<u8>;

/// The deterministic Ed25519 signature of a message under a 32-byte secret key.
pub uninterp spec fn ed25519_signature_spec(secret_key: Seq<u8>, message: Seq<u8>) -> Seq<u8>;

/// The 32-byte Ed25519 public key that `PublicKey::from` derives from a
/// 32-byte secret key.
pub uninterp spec fn ed25519_public_key_spec(secret_key: Seq<u8>) -> Seq<u8>;

/// Outcome of Ed25519 verification: `None` where the public key or the
/// signature bytes do not parse, otherwise whether the signature is valid.
pub uninterp spec fn ed25519_verification_spec(
    public_key: Seq<u8>,
    message: Seq<u8>,
    signature: Seq<u8>,
) -> Option<bool>;

/// The root that `rs_merkle` computes over SHA-256 leaves (`None` where it has none).
pub uninterp spec fn merkle_root_spec(leaves: Seq<Seq<u8>>) -> Option<Seq<u8>>;

/// The first `length` values of `gen::<u8>()` on a ChaCha20 generator seeded with `seed`.
pub uninterp spec fn chacha20_bytes_spec(seed: Seq<u8>, length: nat) -> Seq<u8>;

/// SHA-256 of `data` (crate `sha2`). The digest is named, and 32 bytes long.
#[verifier::external_body]
pub fn sha256(data: &[u8]) -> (hash: Vec<u8>)
    ensures
        hash@ == sha256_spec(data@),
        hash@.len() == 32,
{
    let mut hasher = Sha256::new();
    hasher.update(data);
    hasher.finalize().to_vec()
}

/// BLAKE3 of `data` (`blake3::hash`). The digest is named, and 32 bytes long.
#[verifier::external_body]
pub fn compute_blake3(data: &[u8]) -> (hash: Vec<u8>)
    ensures
        hash@ == blake3_spec(data@),
        hash@.len() == 32,
{
    blake3::hash(data).as_bytes().to_vec()
}

/// Keccak-256 of `data` (crate `sha3`). The digest is named, and 32 bytes long.
#[verifier::external_body]
pub fn compute_keccak256(data: &[u8]) -> (hash: Vec<u8>)
    ensures
        hash@ == keccak256_spec(data@),
        hash@.len() == 32,
{
    let mut hasher = Keccak256::new();
    hasher.update(data);
    hasher.finalize().to_vec()
}

/// CRC-32/ISO-HDLC of `data` (`crc::Crc::checksum`). The checksum is named.
#[verifier::external_body]
pub fn compute_crc32(data: &[u8]) -> (crc: u32)
    ensures
        crc == crc32_spec(data@),
{
    Crc::<u32>::new(&CRC_32_ISO_HDLC).checksum(data)
}

/// HMAC-SHA256 of `message` under `key` (crate `hmac`; any key length is
/// accepted, so `new_varkey` cannot fail). The tag is named and 32 bytes long.
#[verifier::external_body]
pub(crate) fn hmac_sha256(key: &[u8], message: &[u8]) -> (tag: Vec<u8>)
    ensures
        tag@ == hmac_sha256_spec(key@, message@),
        tag@.len() == 32,
{
    let mut mac = Hmac::<Sha256>::new_varkey(key).expect("HMAC can take key of any size");
    mac.update(message);
    mac.finalize().into_bytes().to_vec()
}

/// Ed25519 signature of `message` (`ed25519_dalek::Keypair::sign`).
/// `SecretKey::from_bytes` fails exactly when the key is not 32 bytes; then
/// the result is `None`. Otherwise the 64-byte signature is named, and, as
/// the crate documents for a keypair, it verifies (`PublicKey::verify`)
/// under the 32-byte public key that `PublicKey::from` derives from the
/// secret key, which the body builds the keypair with.
#[verifier::external_body]
pub(crate) fn ed25519_sign(secret_key: &[u8], message: &[u8]) -> (signature: Option<Vec<u8>>)
    ensures
        (signature is Some) <==> secret_key@.len() == 32,
        signature matches Some(s) ==> s@ == ed25519_signature_spec(secret_key@, message@)
            && s@.len() == 64,
        signature matches Some(s) ==> ed25519_public_key_spec(secret_key@).len() == 32
            && ed25519_verification_spec(ed25519_public_key_spec(secret_key@), message@, s@) == Some(true),
{
    match SecretKey::from_bytes(secret_key) {
        Ok(secret) => {
            let public = PublicKey::from(&secret);
            let keypair = Keypair { secret, public };
            Some(keypair.sign(message).to_bytes().to_vec())
        },
        Err(_) => None,
    }
}

/// Ed25519 public key of a secret key (`SecretKey::from_bytes`, then
/// `PublicKey::from`). `from_bytes` fails exactly when the key is not 32
/// bytes; then the result is `None`. Otherwise it is the 32-byte key that
/// `ed25519_public_key_spec` names, the one `ed25519_sign` signs under.
#[verifier::external_body]
pub(crate) fn ed25519_public_key(secret_key: &[u8]) -> (public_key: Option<Vec<u8>>)
    ensures
        (public_key is Some) <==> secret_key@.len() == 32,
        public_key matches Some(p) ==> p@ == ed25519_public_key_spec(secret_key@),
{
    match SecretKey::from_bytes(secret_key) {
        Ok(secret) => Some(PublicKey::from(&secret).to_bytes().to_vec()),
        Err(_) => None,
    }
}

/// Ed25519 verification (`PublicKey::from_bytes`, `Signature::from_bytes`,
/// `Verifier::verify`): `None` where either parse fails, otherwise whether the
/// signature verifies. The outcome is named.
#[verifier::external_body]
pub(crate) fn ed25519_verify(public_key: &[u8], message: &[u8], signature: &[u8]) -> (outcome: Option<bool>)
    ensures
        outcome == ed25519_verification_spec(public_key@, message@, signature@),
{
    match (PublicKey::from_bytes(public_key), Signature::from_bytes(signature)) {
        (Ok(pk), Ok(sig)) => Some(pk.verify(message, &sig).is_ok()),
        _ => None,
    }
}

/// Root of an `rs_merkle` tree over SHA-256 whose leaves are the first 32
/// bytes of each hash. `copy_from_slice(&hash[..32])` panics on shorter
/// hashes, so each must hold at least 32 bytes. The root is named.
#[verifier::external_body]
pub(crate) fn rs_merkle_root(leaves: &Vec<Vec<u8>>) -> (root: Option<Vec<u8>>)
    requires
        forall|i: int| 0 <= i < leaves@.len() ==> #[trigger] leaves@[i]@.len() == 32,
    ensures
        root matches Some(r) ==> r@.len() == 32
            && merkle_root_spec(leaves@.map_values(|l: Vec<u8>| l@)) == Some(r@),
        root is None ==> merkle_root_spec(leaves@.map_values(|l: Vec<u8>| l@)) is None,
{
    let arrays: Vec<[u8; 32]> = leaves.iter().map(|l| {
        let mut leaf = [0u8; 32];
        leaf.copy_from_slice(&l[..32]);
        leaf
    }).collect();
    MerkleTree::<MerkleSha256>::from_leaves(&arrays).root().map(|r| r.to_vec())
}

/// The first `length` bytes drawn with `gen::<u8>()` from a `ChaCha20Rng`
/// seeded with the 32-byte `seed` (crates `rand_chacha`, `rand`). Named.
#[verifier::external_body]
pub(crate) fn chacha20_bytes(seed: &[u8], length: usize) -> (bytes: Vec<u8>)
    requires
        seed@.len() == 32,
    ensures
        bytes@ == chacha20_bytes_spec(seed@, length as nat),
        bytes@.len() == length,
{
    let mut seed_array = [0u8; 32];
    seed_array.copy_from_slice(seed);
    let mut rng = ChaCha20Rng::from_seed(seed_array);
    (0..length).map(|_| rng.gen::<u8>()).collect()
}

/// 32 bytes from the operating system's generator (`getrandom::getrandom`).
/// A failure of the call is ignored, as the callers do, and then the bytes
/// are whatever the call left in the zeroed buffer. The bytes depend on
/// chance; only their number is stated.
#[verifier::external_body]
pub(crate) fn os_random_32() -> (bytes: Vec<u8>)
    ensures
        bytes@.len() == 32,
{
    let mut buffer = [0u8; 32];
    getrandom::getrandom(&mut buffer).unwrap_or_default();
    buffer.to_vec()
}

/// `length` bytes drawn with `rand::random::<u8>()` from the thread-local
/// generator. The bytes depend on chance; only their number is stated.
#[verifier::external_body]
pub(crate) fn random_bytes(length: usize) -> (bytes: Vec<u8>)
    ensures
        bytes@.len() == length,
{
    (0..length).map(|_| rand::random::<u8>()).collect()
}

/// The lower-case hex digit for a value below 16.
pub open spec fn hex_digit(n: int) -> char {
    if n < 10 {
        (n + 48) as char
    } else {
        (n + 87) as char
    }
}

/// Lower-case hex encoding: two digits per byte, high nibble first.
pub open spec fn hex_encode_spec(data: Seq<u8>) -> Seq<char> {
    Seq::new(
        2 * data.len(),
        |i: int|
            if i % 2 == 0 {
                hex_digit((data[i / 2] / 16) as int)
            } else {
                hex_digit((data[i / 2] % 16) as int)
            },
    )
}

/// Whether a byte is an ASCII hex digit of either case.
pub open spec fn is_hex_byte(c: u8) -> bool {
    (48 <= c <= 57) || (65 <= c <= 70) || (97 <= c <= 102)
}

/// The value of an ASCII hex digit.
pub open spec fn hex_value(c: u8) -> int {
    if 48 <= c <= 57 {
        c - 48
    } else if 65 <= c <= 70 {
        c - 55
    } else {
        c - 87
    }
}

/// Hex decoding as `hex::decode` does it: `None` on odd length or on a
/// non-hex byte, else one byte per pair of digits.
pub open spec fn hex_decode_spec(text: Seq<u8>) -> Option<Seq<u8>> {
    if text.len() % 2 != 0 || exists|i: int| 0 <= i < text.len() && !is_hex_byte(#[trigger] text[i]) {
        None
    } else {
        Some(Seq::new(text.len() / 2, |i: int| (hex_value(text[2 * i]) * 16 + hex_value(text[2 * i + 1])) as u8))
    }
}

/// Lower-case hex encoding of `data` (`hex::encode`, which uses the digits
/// `0123456789abcdef`, high nibble first).
#[verifier::external_body]
pub fn bytes_to_hex(data: &[u8]) -> (text: String)
    ensures
        text@ == hex_encode_spec(data@),
{
    hex::encode(data)
}

/// Hex decoding of the bytes of `text` (`hex::decode`): fails on an odd
/// length or on a byte that is not a hex digit of either case.
#[verifier::external_body]
pub(crate) fn hex_decode(text: &[u8]) -> (bytes: Option<Vec<u8>>)
    ensures
        bytes matches Some(b) ==> hex_decode_spec(text@) == Some(b@),
        bytes is None ==> hex_decode_spec(text@) is None,
{
    hex::decode(text).ok()
}

} // verus!
