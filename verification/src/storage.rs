//! The data file of a hash chain, held in memory: chunk reads with prover
//! decoding and zero padding, chunk and file hashes.
use vstd::prelude::*;

use crate::consts::{CHUNK_SIZE_BYTES, HASHCHAIN_MAX_CHUNKS, HASHCHAIN_MIN_CHUNKS};
use crate::crypto::{blake3_spec, compute_blake3, compute_crc32, sha256, sha256_spec, bytes_to_hex, hex_encode_spec};
use crate::encoding::{encode_chunk_spec, encode_file_contents, encode_file_spec, FileEncoder};
use crate::errors::{HashChainError, HashChainResult};
use crate::seqs::{append_bytes, byte_views, copy_bytes};
use crate::utils::{create_output_file_paths, output_file_paths};

verus! {

/// The number of chunks of a file of `file_size` bytes (the last one may be
/// partial).
pub open spec fn chunk_count(file_size: u64) -> int {
    (file_size + CHUNK_SIZE_BYTES - 1) / (CHUNK_SIZE_BYTES as int)
}

/// The number of chunks of a file, or the error for a count outside
/// `[HASHCHAIN_MIN_CHUNKS, HASHCHAIN_MAX_CHUNKS]`.
pub fn chunk_count_for_size(file_size: u64) -> (r: HashChainResult<u64>)
    ensures
        chunk_count(file_size) > HASHCHAIN_MAX_CHUNKS ==> r == Err::<u64, HashChainError>(
            HashChainError::TooManyChunks { count: chunk_count(file_size) as u64, max: HASHCHAIN_MAX_CHUNKS },
        ),
        chunk_count(file_size) < HASHCHAIN_MIN_CHUNKS ==> r == Err::<u64, HashChainError>(
            HashChainError::TooFewChunks { count: chunk_count(file_size) as u64, min: HASHCHAIN_MIN_CHUNKS },
        ),
        HASHCHAIN_MIN_CHUNKS <= chunk_count(file_size) <= HASHCHAIN_MAX_CHUNKS ==> r == Ok::<u64, HashChainError>(
            chunk_count(file_size) as u64,
        ),
{
    let total_chunks = file_size / CHUNK_SIZE_BYTES as u64 + if file_size % CHUNK_SIZE_BYTES as u64 == 0 {
        0u64
    } else {
        1u64
    };
    assert(total_chunks == chunk_count(file_size)) by {
        vstd::arithmetic::div_mod::lemma_fundamental_div_mod(file_size as int, CHUNK_SIZE_BYTES as int);
        let q = (file_size as int) / (CHUNK_SIZE_BYTES as int);
        let r = (file_size as int) % (CHUNK_SIZE_BYTES as int);
        if r == 0 {
            vstd::arithmetic::div_mod::lemma_fundamental_div_mod_converse(
                file_size + CHUNK_SIZE_BYTES - 1,
                CHUNK_SIZE_BYTES as int,
                q,
                CHUNK_SIZE_BYTES - 1,
            );
        } else {
            vstd::arithmetic::div_mod::lemma_fundamental_div_mod_converse(
                file_size + CHUNK_SIZE_BYTES - 1,
                CHUNK_SIZE_BYTES as int,
                q + 1,
                r - 1,
            );
        }
    }
    if total_chunks > HASHCHAIN_MAX_CHUNKS {
        return Err(HashChainError::TooManyChunks { count: total_chunks, max: HASHCHAIN_MAX_CHUNKS });
    }
    if total_chunks < HASHCHAIN_MIN_CHUNKS {
        return Err(HashChainError::TooFewChunks { count: total_chunks, min: HASHCHAIN_MIN_CHUNKS });
    }
    Ok(total_chunks)
}

/// A chunk index below the chunk count starts inside the file.
proof fn lemma_chunk_start(file_size: u64, index: u32)
    requires
        index < chunk_count(file_size),
    ensures
        index * CHUNK_SIZE_BYTES < file_size,
{
    let q = chunk_count(file_size);
    vstd::arithmetic::div_mod::lemma_fundamental_div_mod(file_size + CHUNK_SIZE_BYTES - 1, CHUNK_SIZE_BYTES as int);
    assert(index + 1 <= q);
    assert((index + 1) * CHUNK_SIZE_BYTES <= q * CHUNK_SIZE_BYTES) by (nonlinear_arith)
        requires
            index + 1 <= q,
    ;
}

/// Whether streamed data of `size` bytes can be stored under `public_key`:
/// a 32-byte key and a chunk count in the accepted range.
pub open spec fn stream_accepted(public_key: Seq<u8>, size: nat) -> bool {
    &&& public_key.len() == 32
    &&& HASHCHAIN_MIN_CHUNKS <= chunk_count(size as u64) <= HASHCHAIN_MAX_CHUNKS
}

/// A chunk's bytes padded (or cut) to exactly `CHUNK_SIZE_BYTES`.
pub open spec fn pad_chunk(s: Seq<u8>) -> Seq<u8> {
    Seq::new(CHUNK_SIZE_BYTES as nat, |j: int| if j < s.len() { s[j] } else { 0 })
}

/// The data file of a chain: its paths, its size and chunk count, its bytes
/// as stored (prover-encoded where a prover key is set) and that key.
pub struct ChainStorage {
    data_file_path: String,
    hashchain_file_path: String,
    total_chunks: u64,
    file_size: u64,
    contents: Vec<u8>,
    prover_key: Option<Vec<u8>>,
}

impl ChainStorage {
    /// The stored bytes.
    pub closed spec fn bytes(&self) -> Seq<u8> {
        self.contents@
    }

    /// The size of the data the chain was created from.
    pub closed spec fn size(&self) -> u64 {
        self.file_size
    }

    /// The chunk count.
    pub closed spec fn chunks(&self) -> u64 {
        self.total_chunks
    }

    /// The prover key used to decode chunks, if any.
    pub closed spec fn key(&self) -> Option<Seq<u8>> {
        match self.prover_key {
            Some(k) => Some(k@),
            None => None,
        }
    }

    /// The data file path.
    pub closed spec fn data_path(&self) -> Seq<char> {
        self.data_file_path@
    }

    /// The hash chain file path.
    pub closed spec fn hashchain_path(&self) -> Seq<char> {
        self.hashchain_file_path@
    }

    /// The chunk count is that of the size, within the accepted range, and
    /// the stored bytes cover the size.
    #[verifier::type_invariant]
    spec fn wf(&self) -> bool {
        &&& self.total_chunks == chunk_count(self.file_size)
        &&& HASHCHAIN_MIN_CHUNKS <= self.total_chunks <= HASHCHAIN_MAX_CHUNKS
        &&& self.file_size <= self.contents@.len()
        &&& self.prover_key matches Some(k) ==> k@.len() == 32
    }

    /// The length of chunk `index` of the data: a full chunk, or what is
    /// left of the data for the last one.
    pub open spec fn chunk_len(&self, index: u32) -> int {
        let start = index * CHUNK_SIZE_BYTES;
        if start + CHUNK_SIZE_BYTES <= self.size() {
            CHUNK_SIZE_BYTES as int
        } else {
            self.size() - start
        }
    }

    /// The stored bytes of chunk `index` (up to a full chunk, as far as they
    /// are stored), padded with zeros to a full chunk.
    pub open spec fn stored_chunk(&self, index: u32) -> Seq<u8> {
        let start = index * CHUNK_SIZE_BYTES;
        let end = if start + CHUNK_SIZE_BYTES <= self.bytes().len() {
            start + CHUNK_SIZE_BYTES
        } else {
            self.bytes().len() as int
        };
        pad_chunk(self.bytes().subrange(start, end))
    }

    /// The data of chunk `index`: the stored chunk, decoded with the prover
    /// key where one is set, cut to the chunk's length.
    pub open spec fn decoded_chunk(&self, index: u32) -> Seq<u8> {
        let full = match self.key() {
            Some(k) => encode_chunk_spec(k, self.stored_chunk(index), index),
            None => self.stored_chunk(index),
        };
        full.subrange(0, self.chunk_len(index))
    }

    /// Whether chunk `index` can be read: it is below the chunk count.
    pub open spec fn chunk_readable(&self, index: u32) -> bool {
        index < self.chunks()
    }

    /// The content of chunk `index`: its data padded with zeros to a full
    /// chunk.
    pub open spec fn chunk_content(&self, index: u32) -> Seq<u8> {
        pad_chunk(self.decoded_chunk(index))
    }

    /// Opens storage over the bytes of an existing data file. The chunk
    /// count follows from the size; a count outside the accepted range is an
    /// error. No prover key is set.
    pub fn new(data_file_path: String, hashchain_file_path: String, contents: Vec<u8>) -> (r: HashChainResult<
        ChainStorage,
    >)
        requires
            contents@.len() <= u64::MAX,
        ensures
            chunk_count(contents@.len() as u64) > HASHCHAIN_MAX_CHUNKS ==> (r matches Err(e) && e is TooManyChunks),
            chunk_count(contents@.len() as u64) < HASHCHAIN_MIN_CHUNKS ==> (r matches Err(e) && e is TooFewChunks),
            HASHCHAIN_MIN_CHUNKS <= chunk_count(contents@.len() as u64) <= HASHCHAIN_MAX_CHUNKS ==> (r matches Ok(
                s,
            ) && {
                &&& s.bytes() == contents@
                &&& s.size() == contents@.len()
                &&& s.chunks() == chunk_count(contents@.len() as u64)
                &&& s.key() is None
                &&& s.data_path() == data_file_path@
            }),
    {
        let file_size = contents.len() as u64;
        let total_chunks = chunk_count_for_size(file_size)?;
        Ok(ChainStorage {
            data_file_path,
            hashchain_file_path,
            total_chunks,
            file_size,
            contents,
            prover_key: None,
        })
    }

    /// Creates storage from streamed data: the data is encoded for
    /// `public_key` (a key of another size fails as a file-format error), the
    /// size is that of the data and the chunk count follows from it. The
    /// stored bytes are the encoded ones; the files are named in
    /// `output_dir` after the hex SHA-256 of the data (`output_file_paths`).
    pub fn create_from_stream(
        data_stream: &[u8],
        output_dir: &str,
        public_key: &Vec<u8>,
    ) -> (r: HashChainResult<ChainStorage>)
        requires
            data_stream@.len() <= u32::MAX as nat * CHUNK_SIZE_BYTES,
        ensures
            public_key@.len() != 32 ==> (r matches Err(e) && e is FileFormat),
            public_key@.len() == 32 && chunk_count(data_stream@.len() as u64) > HASHCHAIN_MAX_CHUNKS ==> (r matches Err(
                e,
            ) && e is TooManyChunks),
            public_key@.len() == 32 && chunk_count(data_stream@.len() as u64) < HASHCHAIN_MIN_CHUNKS ==> (r matches Err(
                e,
            ) && e is TooFewChunks),
            public_key@.len() == 32 && HASHCHAIN_MIN_CHUNKS <= chunk_count(data_stream@.len() as u64)
                <= HASHCHAIN_MAX_CHUNKS ==> (r matches Ok(s) && {
                &&& s.bytes() == encode_file_spec(public_key@, data_stream@)
                &&& s.size() == data_stream@.len()
                &&& s.chunks() == chunk_count(data_stream@.len() as u64)
                &&& s.key() == Some(public_key@)
                &&& s.data_path() == stream_paths(output_dir@, data_stream@).0
                &&& s.hashchain_path() == stream_paths(output_dir@, data_stream@).1
                &&& s.all_chunks_readable()
            }),
    {
        let stem = stream_file_stem(data_stream);
        let (data_file_path, hashchain_file_path) = create_output_file_paths(output_dir, stem.as_str());
        let encoded = match encode_file_contents(data_stream, copy_bytes(public_key.as_slice())) {
            Ok(f) => f,
            Err(_) => {
                return Err(HashChainError::FileFormat(String::from_str("Encoding failed")));
            },
        };
        let file_size = data_stream.len() as u64;
        let total_chunks = chunk_count_for_size(file_size)?;
        proof {
            let n = data_stream@.len();
            let q = (n + CHUNK_SIZE_BYTES - 1) / (CHUNK_SIZE_BYTES as int);
            vstd::arithmetic::div_mod::lemma_fundamental_div_mod(n + CHUNK_SIZE_BYTES - 1, CHUNK_SIZE_BYTES as int);
            assert(encoded.content@.len() == q * CHUNK_SIZE_BYTES);
        }
        let storage = ChainStorage {
            data_file_path,
            hashchain_file_path,
            total_chunks,
            file_size,
            contents: encoded.content,
            prover_key: Some(copy_bytes(public_key.as_slice())),
        };
        Ok(storage)
    }

    /// The chunk count.
    pub fn total_chunks(&self) -> (n: u64)
        ensures
            n == self.chunks(),
    {
        self.total_chunks
    }

    /// The size of the data.
    pub fn file_size(&self) -> (n: u64)
        ensures
            n == self.size(),
    {
        self.file_size
    }

    /// The data file path.
    pub fn data_file_path(&self) -> (p: &String)
        ensures
            p@ == self.data_path(),
    {
        &self.data_file_path
    }

    /// The hash chain file path.
    pub fn hashchain_file_path(&self) -> (p: &String)
        ensures
            p@ == self.hashchain_path(),
    {
        &self.hashchain_file_path
    }

    /// The stored bytes.
    pub fn contents(&self) -> (c: &Vec<u8>)
        ensures
            c@ == self.bytes(),
    {
        &self.contents
    }

    /// The prover key, if set.
    pub fn prover_key(&self) -> (k: &Option<Vec<u8>>)
        ensures
            match *k {
                Some(v) => self.key() == Some(v@),
                None => self.key() is None,
            },
    {
        &self.prover_key
    }

    /// Sets the prover key used to decode chunks; a key that is not 32 bytes
    /// is a file-format error and leaves the storage unchanged.
    pub fn set_prover_key(&mut self, prover_key: Vec<u8>) -> (r: HashChainResult<()>)
        ensures
            prover_key@.len() != 32 ==> (r matches Err(e) && e is FileFormat) && final(self).key() == old(self).key(),
            prover_key@.len() == 32 ==> r is Ok && final(self).key() == Some(prover_key@),
            final(self).bytes() == old(self).bytes(),
            final(self).size() == old(self).size(),
            final(self).chunks() == old(self).chunks(),
            final(self).data_path() == old(self).data_path(),
    {
        proof {
            use_type_invariant(&*self);
        }
        if prover_key.len() != 32 {
            return Err(HashChainError::FileFormat(String::from_str("Prover key must be 32 bytes")));
        }
        self.prover_key = Some(prover_key);
        Ok(())
    }

    /// Reads chunk `index`: the stored full chunk (the stored bytes of the
    /// chunk padded with zeros to a full chunk), decoded with the prover key
    /// where one is set; its first `chunk_len` bytes, the chunk's data, are
    /// kept and the rest of the chunk is zeros. An index at or past the
    /// chunk count is `ChunkIndexOutOfRange`.
    pub fn read_chunk(&self, chunk_index: u32) -> (r: HashChainResult<Vec<u8>>)
        ensures
            chunk_index >= self.chunks() ==> r == Err::<Vec<u8>, HashChainError>(
                HashChainError::ChunkIndexOutOfRange { index: chunk_index, max: self.chunks() },
            ),
            chunk_index < self.chunks() ==> (r matches Ok(v) && v@ == self.chunk_content(chunk_index)),
            r is Ok <==> self.chunk_readable(chunk_index),
            r matches Ok(v) ==> v@ == self.chunk_content(chunk_index) && v@.len() == CHUNK_SIZE_BYTES,
    {
        proof {
            use_type_invariant(self);
        }
        if chunk_index as u64 >= self.total_chunks {
            return Err(HashChainError::ChunkIndexOutOfRange { index: chunk_index, max: self.total_chunks });
        }
        proof {
            lemma_chunk_start(self.file_size, chunk_index);
        }
        let chunk_start: u64 = chunk_index as u64 * CHUNK_SIZE_BYTES as u64;
        assert(chunk_start == chunk_index * CHUNK_SIZE_BYTES);
        assert(self.contents@.len() == self.contents.len());
        let stored_len: u64 = self.contents.len() as u64;
        let stored_end: u64 = if stored_len - chunk_start >= CHUNK_SIZE_BYTES as u64 {
            chunk_start + CHUNK_SIZE_BYTES as u64
        } else {
            stored_len
        };
        let raw = slice_bytes(&self.contents, chunk_start as usize, stored_end as usize);
        let stored = pad_to_chunk(&raw);
        assert(stored@ == self.stored_chunk(chunk_index));
        let full = match &self.prover_key {
            Some(key) => {
                let encoder = match FileEncoder::new(copy_bytes(key.as_slice())) {
                    Ok(enc) => enc,
                    Err(_) => {
                        assert(false);
                        return Err(HashChainError::FileFormat(String::from_str("Encoder error")));
                    },
                };
                match encoder.decode_chunk(stored.as_slice(), chunk_index) {
                    Ok(d) => d,
                    Err(_) => {
                        assert(false);
                        return Err(HashChainError::FileFormat(String::from_str("Decoding error")));
                    },
                }
            },
            None => stored,
        };
        let data_len: u64 = if self.file_size - chunk_start >= CHUNK_SIZE_BYTES as u64 {
            CHUNK_SIZE_BYTES as u64
        } else {
            self.file_size - chunk_start
        };
        assert(data_len == self.chunk_len(chunk_index));
        let data = slice_bytes(&full, 0, data_len as usize);
        assert(data@ =~= self.decoded_chunk(chunk_index));
        Ok(pad_to_chunk(&data))
    }

    /// Reads several chunks in order; the first failing read ends the batch
    /// with its error.
    pub fn read_chunks(&self, chunk_indices: &Vec<u32>) -> (r: HashChainResult<Vec<Vec<u8>>>)
        ensures
            r matches Ok(cs) ==> cs@.len() == chunk_indices@.len() && (forall|i: int|
                0 <= i < chunk_indices@.len() ==> #[trigger] cs@[i]@ == self.chunk_content(chunk_indices@[i]))
                && (forall|i: int| 0 <= i < chunk_indices@.len() ==> #[trigger] self.chunk_readable(chunk_indices@[i])),
            r is Err ==> exists|i: int|
                0 <= i < chunk_indices@.len() && !#[trigger] self.chunk_readable(chunk_indices@[i]),
    {
        let mut chunks: Vec<Vec<u8>> = Vec::new();
        let mut i: usize = 0;
        while i < chunk_indices.len()
            invariant
                i <= chunk_indices@.len(),
                chunks@.len() == i,
                forall|j: int| 0 <= j < i ==> #[trigger] chunks@[j]@ == self.chunk_content(chunk_indices@[j]),
                forall|j: int| 0 <= j < i ==> #[trigger] self.chunk_readable(chunk_indices@[j]),
            decreases chunk_indices@.len() - i,
        {
            let res = self.read_chunk(chunk_indices[i]);
            match res {
                Ok(c) => {
                    assert(self.chunk_readable(chunk_indices@[i as int]));
                    let ghost before = chunks@;
                    chunks.push(c);
                    assert(chunks@[i as int]@ == self.chunk_content(chunk_indices@[i as int]));
                    assert forall|j: int| 0 <= j < i + 1 implies #[trigger] chunks@[j]@ == self.chunk_content(
                        chunk_indices@[j],
                    ) by {
                        if j < i {
                            assert(chunks@[j] == before[j]);
                        }
                    }
                },
                Err(e) => {
                    assert(!self.chunk_readable(chunk_indices@[i as int]));
                    return Err(e);
                },
            }
            i = i + 1;
        }
        Ok(chunks)
    }

    /// SHA-256 of the content of chunk `index` (see `read_chunk`).
    pub fn compute_chunk_hash(&self, chunk_index: u32) -> (r: HashChainResult<Vec<u8>>)
        ensures
            chunk_index >= self.chunks() ==> r == Err::<Vec<u8>, HashChainError>(
                HashChainError::ChunkIndexOutOfRange { index: chunk_index, max: self.chunks() },
            ),
            r is Ok <==> self.chunk_readable(chunk_index),
            r matches Ok(h) ==> h@ == sha256_spec(self.chunk_content(chunk_index)) && h@.len() == 32,
    {
        let chunk_data = self.read_chunk(chunk_index)?;
        Ok(sha256(chunk_data.as_slice()))
    }

    /// SHA-256 of the content of each chunk, in order; the first failing
    /// read ends the batch with its error.
    pub fn compute_chunk_hashes(&self, chunk_indices: &Vec<u32>) -> (r: HashChainResult<Vec<Vec<u8>>>)
        ensures
            r matches Ok(hs) ==> hs@.len() == chunk_indices@.len() && (forall|i: int|
                0 <= i < chunk_indices@.len() ==> #[trigger] hs@[i]@ == sha256_spec(self.chunk_content(chunk_indices@[i])))
                && (forall|i: int| 0 <= i < chunk_indices@.len() ==> #[trigger] self.chunk_readable(chunk_indices@[i])),
            r is Err ==> exists|i: int|
                0 <= i < chunk_indices@.len() && !#[trigger] self.chunk_readable(chunk_indices@[i]),
    {
        let chunks = match self.read_chunks(chunk_indices) {
            Ok(cs) => cs,
            Err(e) => {
                return Err(e);
            },
        };
        let mut hashes: Vec<Vec<u8>> = Vec::new();
        let mut i: usize = 0;
        while i < chunks.len()
            invariant
                i <= chunks@.len(),
                chunks@.len() == chunk_indices@.len(),
                hashes@.len() == i,
                forall|j: int| 0 <= j < chunk_indices@.len() ==> #[trigger] chunks@[j]@ == self.chunk_content(chunk_indices@[j]),
                forall|j: int| 0 <= j < chunk_indices@.len() ==> #[trigger] self.chunk_readable(chunk_indices@[j]),
                forall|j: int|
                    0 <= j < i ==> #[trigger] hashes@[j]@ == sha256_spec(self.chunk_content(chunk_indices@[j])),
            decreases chunks@.len() - i,
        {
            hashes.push(sha256(chunks[i].as_slice()));
            i = i + 1;
        }
        Ok(hashes)
    }

    /// The data of chunks `0 .. k` (`decoded_chunk`), in order.
    pub open spec fn decoded_prefix(&self, k: nat) -> Seq<u8>
        decreases k,
    {
        if k == 0 {
            Seq::empty()
        } else {
            self.decoded_prefix((k - 1) as nat) + self.decoded_chunk((k - 1) as u32)
        }
    }

    /// Whether every chunk can be decoded.
    pub open spec fn all_chunks_readable(&self) -> bool {
        forall|i: u32| i < self.chunks() ==> #[trigger] self.chunk_readable(i)
    }

    /// The hash of the file's data: with a prover key, BLAKE3 of the data of
    /// the chunks in order (`decoded_chunk`); without one, SHA-256 of the
    /// stored bytes.
    pub fn compute_file_hash(&self) -> (r: HashChainResult<Vec<u8>>)
        ensures
            self.key() is None ==> (r matches Ok(h) && h@ == sha256_spec(self.bytes())),
            self.key() is Some ==> (r matches Ok(h) && h@ == blake3_spec(self.decoded_prefix(self.chunks() as nat))),
    {
        proof {
            use_type_invariant(self);
        }
        match &self.prover_key {
            None => Ok(sha256(self.contents.as_slice())),
            Some(_) => {
                let mut decoded: Vec<u8> = Vec::new();
                let mut index: u64 = 0;
                while index < self.total_chunks
                    invariant
                        index <= self.chunks(),
                        self.chunks() <= HASHCHAIN_MAX_CHUNKS,
                        self.key() is Some,
                        decoded@ == self.decoded_prefix(index as nat),
                    decreases self.chunks() - index,
                {
                    let chunk = self.read_chunk(index as u32);
                    match chunk {
                        Ok(c) => {
                            let n = self.chunk_data_len(index as u32);
                            let data = slice_bytes(&c, 0, n);
                            proof {
                                assert(data@ =~= self.decoded_chunk(index as u32));
                            }
                            append_bytes(&mut decoded, data.as_slice());
                        },
                        Err(_) => {
                            assert(false);
                            return Err(HashChainError::FileFormat(String::from_str("Decoding error")));
                        },
                    }
                    index = index + 1;
                }
                Ok(compute_blake3(decoded.as_slice()))
            },
        }
    }

    /// The length of chunk `index` of the data (`chunk_len`).
    fn chunk_data_len(&self, index: u32) -> (n: usize)
        requires
            index < self.chunks(),
        ensures
            n == self.chunk_len(index),
            n <= CHUNK_SIZE_BYTES,
    {
        proof {
            use_type_invariant(self);
            lemma_chunk_start(self.file_size, index);
        }
        let start: u64 = index as u64 * CHUNK_SIZE_BYTES as u64;
        if self.file_size - start >= CHUNK_SIZE_BYTES as u64 {
            CHUNK_SIZE_BYTES as usize
        } else {
            (self.file_size - start) as usize
        }
    }

    /// Checks the stored bytes with a CRC-32 pass; the check accepts every
    /// file (the checksum is not compared with a stored one).
    pub fn verify_file_integrity(&self) -> (r: HashChainResult<bool>)
        ensures
            r == Ok::<bool, HashChainError>(true),
    {
        let _file_crc = compute_crc32(self.contents.as_slice());
        Ok(true)
    }
}

/// The bytes `v[start..end]`.
fn slice_bytes(v: &Vec<u8>, start: usize, end: usize) -> (r: Vec<u8>)
    requires
        start <= end <= v@.len(),
    ensures
        r@ == v@.subrange(start as int, end as int),
{
    let mut r: Vec<u8> = Vec::new();
    let mut i: usize = start;
    while i < end
        invariant
            start <= i <= end <= v@.len(),
            r@ =~= v@.subrange(start as int, i as int),
        decreases end - i,
    {
        r.push(v[i]);
        i = i + 1;
    }
    r
}

/// A chunk's bytes padded (or cut) to exactly `CHUNK_SIZE_BYTES`.
fn pad_to_chunk(data: &Vec<u8>) -> (r: Vec<u8>)
    ensures
        r@ == pad_chunk(data@),
{
    let mut r: Vec<u8> = Vec::new();
    let mut j: usize = 0;
    while j < CHUNK_SIZE_BYTES as usize
        invariant
            j <= CHUNK_SIZE_BYTES,
            r@ =~= Seq::new(j as nat, |k: int| if k < data@.len() { data@[k] } else { 0 }),
        decreases CHUNK_SIZE_BYTES - j,
    {
        if j < data.len() {
            r.push(data[j]);
        } else {
            r.push(0u8);
        }
        j = j + 1;
    }
    r
}

/// The paths streamed data is stored under in `output_dir`.
pub open spec fn stream_paths(output_dir: Seq<char>, data: Seq<u8>) -> (Seq<char>, Seq<char>) {
    output_file_paths(output_dir, hex_encode_spec(sha256_spec(data)))
}

/// The stem of the file names of streamed data: the lower-case hex of the
/// SHA-256 of the data.
pub fn stream_file_stem(data_stream: &[u8]) -> (stem: String)
    ensures
        stem@ == hex_encode_spec(sha256_spec(data_stream@)),
{
    let data_hash = sha256(data_stream);
    bytes_to_hex(data_hash.as_slice())
}


} // verus!
