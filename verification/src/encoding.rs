//! Prover-specific file encoding: every chunk is XORed with a key derived
//! from the prover's public key and the chunk index, so that each prover
//! stores a different byte image of the same file.
use vstd::prelude::*;
use vstd::string::StringSliceAdditionalSpecFns;

use crate::bytes::{be32, be64, u32_to_be_bytes, u64_to_be_bytes};
use crate::commitments::invalid_argument;
use crate::consts::CHUNK_SIZE_BYTES;
use crate::crypto::{sha256, sha256_spec};
use crate::errors::{HashChainError, HashChainResult};
use crate::seqs::{append_bytes, bytes_equal, copy_bytes};
use crate::types::FileEncodingInfo;

verus! {

/// The encoding version this encoder implements.
pub const ENCODING_VERSION: u32 = 1;

/// The key of chunk `chunk_index`: SHA-256 of the prover key, the chunk
/// index and the encoding version (both big-endian) and the tag
/// `chunk_encoding_key`.
pub open spec fn chunk_key_spec(prover_key: Seq<u8>, chunk_index: u32) -> Seq<u8> {
    sha256_spec(prover_key + be32(chunk_index) + be32(ENCODING_VERSION) + "chunk_encoding_key".spec_bytes())
}

/// Each byte XORed with the key byte at the same position modulo 32.
pub open spec fn xor_with_key(data: Seq<u8>, key: Seq<u8>) -> Seq<u8> {
    Seq::new(data.len(), |i: int| data[i] ^ key[i % 32])
}

/// The encoding of one chunk.
pub open spec fn encode_chunk_spec(prover_key: Seq<u8>, data: Seq<u8>, chunk_index: u32) -> Seq<u8> {
    xor_with_key(data, chunk_key_spec(prover_key, chunk_index))
}

/// The encoding parameters recorded for this encoding: the version
/// (big-endian) followed by the tag `xor_encoding`.
pub open spec fn encoding_params_record() -> Seq<u8> {
    be32(ENCODING_VERSION) + "xor_encoding".spec_bytes()
}

/// Encodes and decodes chunks for one prover key.
pub struct FileEncoder {
    prover_key: Vec<u8>,
    encoding_version: u32,
}

impl FileEncoder {
    /// The encoder's prover key.
    pub closed spec fn key(&self) -> Seq<u8> {
        self.prover_key@
    }

    /// The encoder's version.
    pub closed spec fn version(&self) -> u32 {
        self.encoding_version
    }

    /// Every encoder holds a 32-byte key and the current version.
    #[verifier::type_invariant]
    spec fn wf(&self) -> bool {
        self.prover_key@.len() == 32 && self.encoding_version == ENCODING_VERSION
    }

    /// Creates the encoder of a 32-byte prover key; another size is an
    /// argument error.
    pub fn new(prover_key: Vec<u8>) -> (r: HashChainResult<FileEncoder>)
        ensures
            prover_key@.len() != 32 ==> (r matches Err(e) && e is InvalidArgument),
            prover_key@.len() == 32 ==> (r matches Ok(enc) && enc.key() == prover_key@ && enc.version()
                == ENCODING_VERSION),
    {
        if prover_key.len() != 32 {
            return Err(invalid_argument("Prover key must be 32 bytes"));
        }
        Ok(FileEncoder { prover_key, encoding_version: ENCODING_VERSION })
    }

    /// The key of one chunk (`chunk_key_spec`).
    fn generate_chunk_key(&self, chunk_index: u32) -> (key: Vec<u8>)
        ensures
            key@ == chunk_key_spec(self.key(), chunk_index),
            key@.len() == 32,
    {
        proof {
            use_type_invariant(self);
        }
        let mut key_input: Vec<u8> = Vec::new();
        append_bytes(&mut key_input, self.prover_key.as_slice());
        append_bytes(&mut key_input, u32_to_be_bytes(chunk_index).as_slice());
        append_bytes(&mut key_input, u32_to_be_bytes(self.encoding_version).as_slice());
        append_bytes(&mut key_input, "chunk_encoding_key".as_bytes());
        assert(key_input@ =~= self.prover_key@ + be32(chunk_index) + be32(ENCODING_VERSION)
            + "chunk_encoding_key".spec_bytes());
        sha256(key_input.as_slice())
    }

    /// Encodes one chunk of exactly `CHUNK_SIZE_BYTES` bytes; another size is
    /// an argument error.
    pub fn encode_chunk(&self, chunk_data: &[u8], chunk_index: u32) -> (r: HashChainResult<Vec<u8>>)
        ensures
            chunk_data@.len() != CHUNK_SIZE_BYTES ==> (r matches Err(e) && e is InvalidArgument),
            chunk_data@.len() == CHUNK_SIZE_BYTES ==> (r matches Ok(v) && v@ == encode_chunk_spec(
                self.key(),
                chunk_data@,
                chunk_index,
            )),
    {
        if chunk_data.len() != CHUNK_SIZE_BYTES as usize {
            return Err(invalid_argument("Chunk must be exactly one chunk size"));
        }
        let encoding_key = self.generate_chunk_key(chunk_index);
        let mut encoded: Vec<u8> = Vec::new();
        let mut i: usize = 0;
        while i < chunk_data.len()
            invariant
                i <= chunk_data@.len(),
                encoding_key@.len() == 32,
                encoded@ =~= Seq::new(i as nat, |j: int| chunk_data@[j] ^ encoding_key@[j % 32]),
            decreases chunk_data@.len() - i,
        {
            encoded.push(chunk_data[i] ^ encoding_key[i % 32]);
            i = i + 1;
        }
        Ok(encoded)
    }

    /// Decodes one chunk of exactly `CHUNK_SIZE_BYTES` bytes (the XOR encoding
    /// is its own inverse); another size is an argument error.
    pub fn decode_chunk(&self, encoded_data: &[u8], chunk_index: u32) -> (r: HashChainResult<Vec<u8>>)
        ensures
            encoded_data@.len() != CHUNK_SIZE_BYTES ==> (r matches Err(e) && e is InvalidArgument),
            encoded_data@.len() == CHUNK_SIZE_BYTES ==> (r matches Ok(v) && v@ == encode_chunk_spec(
                self.key(),
                encoded_data@,
                chunk_index,
            )),
    {
        if encoded_data.len() != CHUNK_SIZE_BYTES as usize {
            return Err(invalid_argument("Encoded chunk must be exactly one chunk size"));
        }
        self.encode_chunk(encoded_data, chunk_index)
    }

    /// Records an encoding by this encoder.
    pub fn create_encoding_info(&self, original_hash: Vec<u8>, encoded_hash: Vec<u8>) -> (info: FileEncodingInfo)
        ensures
            info.original_hash@ == original_hash@,
            info.encoded_hash@ == encoded_hash@,
            info.prover_key@ == self.key(),
            info.encoding_version == self.version(),
            info.encoding_params@ == encoding_params_record(),
    {
        proof {
            use_type_invariant(self);
        }
        let mut params: Vec<u8> = Vec::new();
        append_bytes(&mut params, u32_to_be_bytes(self.encoding_version).as_slice());
        append_bytes(&mut params, "xor_encoding".as_bytes());
        assert(params@ =~= encoding_params_record());
        FileEncodingInfo {
            original_hash,
            encoded_hash,
            prover_key: copy_bytes(self.prover_key.as_slice()),
            encoding_version: self.encoding_version,
            encoding_params: params,
        }
    }

    /// Whether an encoding record names this encoder's key and version.
    pub fn verify_encoding(&self, encoding_info: &FileEncodingInfo) -> (r: HashChainResult<bool>)
        ensures
            r matches Ok(b) && b == (encoding_info.prover_key@ == self.key() && encoding_info.encoding_version
                == self.version()),
    {
        if !bytes_equal(encoding_info.prover_key.as_slice(), self.prover_key.as_slice()) {
            return Ok(false);
        }
        if encoding_info.encoding_version != self.encoding_version {
            return Ok(false);
        }
        Ok(true)
    }
}

/// Decoding an encoded chunk gives the chunk back.
pub proof fn lemma_chunk_roundtrip(prover_key: Seq<u8>, data: Seq<u8>, chunk_index: u32)
    ensures
        encode_chunk_spec(prover_key, encode_chunk_spec(prover_key, data, chunk_index), chunk_index) == data,
{
    let k = chunk_key_spec(prover_key, chunk_index);
    let e = encode_chunk_spec(prover_key, data, chunk_index);
    assert forall|i: int| 0 <= i < data.len() implies #[trigger] encode_chunk_spec(prover_key, e, chunk_index)[i]
        == data[i] by {
        let a = data[i];
        let b = k[i % 32];
        assert((a ^ b) ^ b == a) by (bit_vector);
    }
    assert(encode_chunk_spec(prover_key, e, chunk_index) =~= data);
}

/// The number of bytes of a file padded to whole chunks.
pub open spec fn padded_len(n: nat) -> nat {
    (((n + CHUNK_SIZE_BYTES - 1) / (CHUNK_SIZE_BYTES as int)) * CHUNK_SIZE_BYTES) as nat
}

/// Byte `i` of a file padded with zeros.
pub open spec fn padded_byte(content: Seq<u8>, i: int) -> u8 {
    if i < content.len() {
        content[i]
    } else {
        0
    }
}

/// The encoding of a whole file: padded to whole chunks with zeros, each
/// chunk XORed with its own key.
pub open spec fn encode_file_spec(prover_key: Seq<u8>, content: Seq<u8>) -> Seq<u8> {
    Seq::new(
        padded_len(content.len()),
        |i: int|
            padded_byte(content, i) ^ chunk_key_spec(prover_key, (i / (CHUNK_SIZE_BYTES as int)) as u32)[i % 32],
    )
}

/// Position `j` of chunk `c` lies in chunk `c`, at the same offset modulo 32.
proof fn lemma_chunk_position(c: int, j: int)
    requires
        c >= 0,
        0 <= j < CHUNK_SIZE_BYTES,
    ensures
        (c * CHUNK_SIZE_BYTES + j) / (CHUNK_SIZE_BYTES as int) == c,
        (c * CHUNK_SIZE_BYTES + j) % 32 == j % 32,
{
    vstd::arithmetic::div_mod::lemma_fundamental_div_mod_converse(
        c * CHUNK_SIZE_BYTES + j,
        CHUNK_SIZE_BYTES as int,
        c,
        j,
    );
    assert(c * CHUNK_SIZE_BYTES + j == (c * 128) * 32 + j) by (nonlinear_arith);
    vstd::arithmetic::div_mod::lemma_mod_multiples_vanish(c * 128, j, 32);
}

/// The chunk count bound: a file of `n` bytes padded to whole chunks.
proof fn lemma_padded_len(n: nat, c: nat)
    requires
        c * CHUNK_SIZE_BYTES < n + CHUNK_SIZE_BYTES,
        n <= c * CHUNK_SIZE_BYTES,
    ensures
        padded_len(n) == c * CHUNK_SIZE_BYTES,
{
    let q = (n + CHUNK_SIZE_BYTES - 1) / (CHUNK_SIZE_BYTES as int);
    assert(q == c) by {
        vstd::arithmetic::div_mod::lemma_fundamental_div_mod_converse(
            n + CHUNK_SIZE_BYTES - 1,
            CHUNK_SIZE_BYTES as int,
            c as int,
            n + CHUNK_SIZE_BYTES - 1 - c * CHUNK_SIZE_BYTES,
        );
    }
}

/// Chunk `start / CHUNK_SIZE_BYTES` of `content`, padded with zeros.
fn padded_chunk_at(content: &[u8], start: usize) -> (chunk: Vec<u8>)
    ensures
        chunk@ == Seq::new(CHUNK_SIZE_BYTES as nat, |j: int| padded_byte(content@, start + j)),
{
    let mut chunk: Vec<u8> = Vec::new();
    let mut j: usize = 0;
    while j < CHUNK_SIZE_BYTES as usize
        invariant
            j <= CHUNK_SIZE_BYTES,
            chunk@ =~= Seq::new(j as nat, |k: int| padded_byte(content@, start + k)),
        decreases CHUNK_SIZE_BYTES - j,
    {
        if start < content.len() && j < content.len() - start {
            chunk.push(content[start + j]);
        } else {
            chunk.push(0u8);
        }
        j = j + 1;
    }
    chunk
}

/// XORs a whole file with the chunk keys of `encoder`, chunk by chunk,
/// padding the last chunk with zeros.
fn transform_contents(encoder: &FileEncoder, content: &[u8]) -> (out: Vec<u8>)
    requires
        content@.len() <= u32::MAX as nat * CHUNK_SIZE_BYTES,
    ensures
        out@ == encode_file_spec(encoder.key(), content@),
{
    let mut out: Vec<u8> = Vec::new();
    let mut start: usize = 0;
    let mut chunk_index: u32 = 0;
    let ghost mut pos: nat = 0;
    while start < content.len()
        invariant
            content@.len() <= u32::MAX as nat * CHUNK_SIZE_BYTES,
            pos == chunk_index as nat * CHUNK_SIZE_BYTES,
            pos < content@.len() + CHUNK_SIZE_BYTES,
            start <= content@.len(),
            start < content@.len() ==> start == pos,
            start == content@.len() ==> pos >= content@.len(),
            out@ =~= Seq::new(
                pos,
                |i: int|
                    padded_byte(content@, i) ^ chunk_key_spec(
                        encoder.key(),
                        (i / (CHUNK_SIZE_BYTES as int)) as u32,
                    )[i % 32],
            ),
        decreases content@.len() - start,
    {
        let chunk = padded_chunk_at(content, start);
        let encoded = encoder.encode_chunk(chunk.as_slice(), chunk_index);
        let encoded = match encoded {
            Ok(e) => e,
            Err(_) => {
                assert(false);
                Vec::new()
            },
        };
        append_bytes(&mut out, encoded.as_slice());
        proof {
            assert forall|i: int| pos <= i < pos + CHUNK_SIZE_BYTES implies #[trigger] out@[i] == padded_byte(
                content@,
                i,
            ) ^ chunk_key_spec(encoder.key(), (i / (CHUNK_SIZE_BYTES as int)) as u32)[i % 32] by {
                lemma_chunk_position(chunk_index as int, i - pos);
                assert(out@[i] == encoded@[i - pos]);
            }
        }
        assert(chunk_index < u32::MAX) by {
            if chunk_index >= u32::MAX {
                assert(chunk_index as nat * CHUNK_SIZE_BYTES >= u32::MAX as nat * CHUNK_SIZE_BYTES) by (nonlinear_arith)
                    requires
                        chunk_index >= u32::MAX,
                ;
            }
        }
        if content.len() - start <= CHUNK_SIZE_BYTES as usize {
            start = content.len();
        } else {
            start = start + CHUNK_SIZE_BYTES as usize;
        }
        chunk_index = chunk_index + 1;
        proof {
            pos = pos + CHUNK_SIZE_BYTES as nat;
        }
    }
    proof {
        lemma_padded_len(content@.len(), chunk_index as nat);
    }
    out
}

/// A file encoded for a prover, with its record.
pub struct EncodedFile {
    /// The encoded (or decoded) bytes.
    pub content: Vec<u8>,
    /// The encoding record.
    pub info: FileEncodingInfo,
}

/// Encodes a whole file for a prover: chunk `c` (the last one padded with
/// zeros) is XORed with the key of chunk `c`. The record holds the SHA-256
/// of the original and of the encoded bytes. A key that is not 32 bytes is
/// an argument error.
pub fn encode_file_contents(content: &[u8], prover_key: Vec<u8>) -> (r: HashChainResult<EncodedFile>)
    requires
        content@.len() <= u32::MAX as nat * CHUNK_SIZE_BYTES,
    ensures
        prover_key@.len() != 32 ==> (r matches Err(e) && e is InvalidArgument),
        prover_key@.len() == 32 ==> (r matches Ok(f) && {
            &&& f.content@ == encode_file_spec(prover_key@, content@)
            &&& f.info.original_hash@ == sha256_spec(content@)
            &&& f.info.encoded_hash@ == sha256_spec(f.content@)
            &&& f.info.prover_key@ == prover_key@
            &&& f.info.encoding_version == ENCODING_VERSION
            &&& f.info.encoding_params@ == encoding_params_record()
        }),
{
    let encoder = FileEncoder::new(prover_key)?;
    let original_hash = sha256(content);
    let encoded = transform_contents(&encoder, content);
    let encoded_hash = sha256(encoded.as_slice());
    let info = encoder.create_encoding_info(original_hash, encoded_hash);
    Ok(EncodedFile { content: encoded, info })
}

/// Decodes a whole encoded file (the transformation of `encode_file_contents`
/// is its own inverse). The record holds the SHA-256 of the decoded bytes as
/// the original hash and that of the input as the encoded hash.
pub fn decode_file_contents(content: &[u8], prover_key: Vec<u8>) -> (r: HashChainResult<EncodedFile>)
    requires
        content@.len() <= u32::MAX as nat * CHUNK_SIZE_BYTES,
    ensures
        prover_key@.len() != 32 ==> (r matches Err(e) && e is InvalidArgument),
        prover_key@.len() == 32 ==> (r matches Ok(f) && {
            &&& f.content@ == encode_file_spec(prover_key@, content@)
            &&& f.info.original_hash@ == sha256_spec(f.content@)
            &&& f.info.encoded_hash@ == sha256_spec(content@)
            &&& f.info.prover_key@ == prover_key@
            &&& f.info.encoding_version == ENCODING_VERSION
            &&& f.info.encoding_params@ == encoding_params_record()
        }),
{
    let encoder = FileEncoder::new(prover_key)?;
    let encoded_hash = sha256(content);
    let decoded = transform_contents(&encoder, content);
    let original_hash = sha256(decoded.as_slice());
    let info = encoder.create_encoding_info(original_hash, encoded_hash);
    Ok(EncodedFile { content: decoded, info })
}

/// Decoding an encoded file gives back the original padded with zeros to
/// whole chunks.
pub proof fn lemma_file_roundtrip(prover_key: Seq<u8>, content: Seq<u8>)
    ensures
        encode_file_spec(prover_key, encode_file_spec(prover_key, content)) == Seq::new(
            padded_len(content.len()),
            |i: int| padded_byte(content, i),
        ),
{
    let e = encode_file_spec(prover_key, content);
    let n = padded_len(content.len());
    let q = (content.len() + CHUNK_SIZE_BYTES - 1) / (CHUNK_SIZE_BYTES as int);
    assert(q >= 0);
    assert(n == q * CHUNK_SIZE_BYTES);
    assert(padded_len(e.len()) == n) by {
        vstd::arithmetic::div_mod::lemma_fundamental_div_mod_converse(
            n + CHUNK_SIZE_BYTES - 1,
            CHUNK_SIZE_BYTES as int,
            q,
            CHUNK_SIZE_BYTES - 1,
        );
    }
    assert forall|i: int| 0 <= i < n implies #[trigger] encode_file_spec(prover_key, e)[i] == padded_byte(
        content,
        i,
    ) by {
        let k = chunk_key_spec(prover_key, (i / (CHUNK_SIZE_BYTES as int)) as u32);
        let a = padded_byte(content, i);
        let b = k[i % 32];
        assert((a ^ b) ^ b == a) by (bit_vector);
    }
    assert(encode_file_spec(prover_key, e) =~= Seq::new(n, |i: int| padded_byte(content, i)));
}

/// Checks encoded bytes against an encoding record: the record's key must
/// make an encoder (else an argument error), name this encoding, and its
/// encoded hash must be the SHA-256 of the bytes.
pub fn verify_encoded_contents(content: &[u8], encoding_info: &FileEncodingInfo) -> (r: HashChainResult<bool>)
    ensures
        encoding_info.prover_key@.len() != 32 ==> (r matches Err(e) && e is InvalidArgument),
        encoding_info.prover_key@.len() == 32 ==> (r matches Ok(b) && b == (encoding_info.encoding_version
            == ENCODING_VERSION && sha256_spec(content@) == encoding_info.encoded_hash@)),
{
    let encoder = FileEncoder::new(copy_bytes(encoding_info.prover_key.as_slice()))?;
    if !encoder.verify_encoding(encoding_info)? {
        return Ok(false);
    }
    let actual_hash = sha256(content);
    Ok(bytes_equal(actual_hash.as_slice(), encoding_info.encoded_hash.as_slice()))
}

/// Local entropy expanded from a 64-bit hash value `h`: the big-endian bytes
/// of `h`, `h + 1`, `h + 2` and `h + 3` (additions wrapping).
pub open spec fn expanded_entropy(h: u64) -> Seq<u8> {
    be64(h) + be64(h.wrapping_add(1)) + be64(h.wrapping_add(2)) + be64(h.wrapping_add(3))
}

/// Expands the hash of the time and process into 32 bytes of local entropy
/// (`expanded_entropy`). The hash itself is taken by the caller.
pub fn expand_local_entropy(hash_value: u64) -> (entropy: Vec<u8>)
    ensures
        entropy@ == expanded_entropy(hash_value),
        entropy@.len() == 32,
{
    let mut entropy: Vec<u8> = Vec::new();
    append_bytes(&mut entropy, u64_to_be_bytes(hash_value).as_slice());
    append_bytes(&mut entropy, u64_to_be_bytes(hash_value.wrapping_add(1)).as_slice());
    append_bytes(&mut entropy, u64_to_be_bytes(hash_value.wrapping_add(2)).as_slice());
    append_bytes(&mut entropy, u64_to_be_bytes(hash_value.wrapping_add(3)).as_slice());
    entropy
}

} // verus!
