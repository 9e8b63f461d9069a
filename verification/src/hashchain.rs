//! The hash chain of one prover and one data file: commitments added block
//! by block, each linked to the previous one, and the proof window cut from
//! its end.
use vstd::prelude::*;

use crate::bytes::{be64, u64_to_be_bytes};
use crate::chunk_selection::{append_be32_all, be32_concat};
use crate::commitments::{copy_commitment, same_commitment};
use crate::consts::{
    hashchain_magic, hashchain_magic_bytes, CHUNKS_PER_BLOCK, CHUNK_SIZE_BYTES, HASHCHAIN_FORMAT_VERSION,
    HASHCHAIN_MAX_CHUNKS, HASHCHAIN_MIN_CHUNKS, PROOF_WINDOW_BLOCKS,
};
use crate::crypto::{blake3_spec, sha256, sha256_spec};
use crate::errors::{HashChainError, HashChainResult};
use crate::header::{zero_hash, zero_hash_bytes, HashChainHeader};
use crate::ids::{chain_id_spec, generate_chain_id};
use crate::seqs::{append_all_bytes, append_bytes, byte_views, bytes_equal, copy_bytes, copy_u32s, flatten_bytes};
use crate::storage::{chunk_count, stream_accepted, stream_paths, ChainStorage};
use crate::types::{PhysicalAccessCommitment, ProofWindow};

verus! {

/// The bytes a chain commitment hash covers: height (big-endian), previous
/// commitment, block hash, each chunk index (big-endian) and each chunk hash.
pub open spec fn chain_commitment_input(c: PhysicalAccessCommitment) -> Seq<u8> {
    be64(c.block_height) + c.previous_commitment@ + c.block_hash@ + be32_concat(c.selected_chunks@)
        + flatten_bytes(byte_views(c.chunk_hashes@))
}

/// The hash a chain commitment must carry.
#[verifier::opaque]
pub open spec fn chain_commitment_hash(c: PhysicalAccessCommitment) -> Seq<u8> {
    sha256_spec(chain_commitment_input(c))
}

/// Whether commitment `i` names the hash of commitment `i - 1` and sits
/// one block higher.
pub open spec fn link_ok(cs: Seq<PhysicalAccessCommitment>, i: int) -> bool {
    cs[i].previous_commitment@ == cs[i - 1].commitment_hash@ && cs[i].block_height == cs[i - 1].block_height + 1
}

/// Whether a commitment carries the hash of its own fields.
pub open spec fn hash_ok(c: PhysicalAccessCommitment) -> bool {
    c.commitment_hash@ == chain_commitment_hash(c)
}

/// Whether consecutive commitments link up (`link_ok`).
pub open spec fn chain_linked(cs: Seq<PhysicalAccessCommitment>) -> bool {
    forall|i: int| 0 < i < cs.len() ==> #[trigger] link_ok(cs, i)
}

/// Whether every commitment carries the hash of its own fields.
pub open spec fn chain_hashes_valid(cs: Seq<PhysicalAccessCommitment>) -> bool {
    forall|i: int| 0 <= i < cs.len() ==> #[trigger] hash_ok(cs[i])
}

/// Whether a list of commitments forms a valid chain.
pub open spec fn chain_valid(cs: Seq<PhysicalAccessCommitment>) -> bool {
    chain_linked(cs) && chain_hashes_valid(cs)
}

/// Computes the hash of a chain commitment (`chain_commitment_hash`).
fn compute_commitment_hash(commitment: &PhysicalAccessCommitment) -> (h: Vec<u8>)
    ensures
        h@ == chain_commitment_hash(*commitment),
        h@.len() == 32,
{
    let mut data: Vec<u8> = Vec::new();
    append_bytes(&mut data, u64_to_be_bytes(commitment.block_height).as_slice());
    append_bytes(&mut data, commitment.previous_commitment.as_slice());
    append_bytes(&mut data, commitment.block_hash.as_slice());
    append_be32_all(&mut data, &commitment.selected_chunks);
    append_all_bytes(&mut data, &commitment.chunk_hashes);
    assert(data@ =~= chain_commitment_input(*commitment));
    reveal(chain_commitment_hash);
    sha256(data.as_slice())
}

/// The hash a commitment must carry does not depend on the hash it carries.
proof fn lemma_hash_ignores_stored_hash(a: PhysicalAccessCommitment, b: PhysicalAccessCommitment)
    requires
        a.block_height == b.block_height,
        a.previous_commitment == b.previous_commitment,
        a.block_hash == b.block_hash,
        a.selected_chunks == b.selected_chunks,
        a.chunk_hashes == b.chunk_hashes,
    ensures
        chain_commitment_hash(a) == chain_commitment_hash(b),
{
    reveal(chain_commitment_hash);
    assert(chain_commitment_input(a) == chain_commitment_input(b));
}

/// Adding a commitment that links to the last one, sits one block higher
/// and carries its own hash keeps a chain valid.
pub proof fn lemma_add_commitment_keeps_chain_valid(cs: Seq<PhysicalAccessCommitment>, c: PhysicalAccessCommitment)
    requires
        chain_valid(cs),
        cs.len() > 0 ==> c.previous_commitment@ == cs.last().commitment_hash@ && c.block_height
            == cs.last().block_height + 1,
        c.commitment_hash@ == chain_commitment_hash(c),
    ensures
        chain_valid(cs.push(c)),
{
    let n = cs.push(c);
    assert forall|i: int| 0 < i < n.len() implies #[trigger] link_ok(n, i) by {
        if i < cs.len() {
            assert(link_ok(cs, i));
        }
    }
    assert forall|i: int| 0 <= i < n.len() implies #[trigger] hash_ok(n[i]) by {
        if i < cs.len() {
            assert(hash_ok(cs[i]));
        }
    }
}

/// Two commitments with the same field views carry the same required hash.
proof fn lemma_same_commitment_hash(a: PhysicalAccessCommitment, b: PhysicalAccessCommitment)
    requires
        same_commitment(a, b),
    ensures
        chain_commitment_hash(a) == chain_commitment_hash(b),
        hash_ok(a) == hash_ok(b),
{
    reveal(chain_commitment_hash);
    assert(chain_commitment_input(a) =~= chain_commitment_input(b));
}

/// The header written for a chain created from streamed data.
pub open spec fn stream_header_valid(
    h: HashChainHeader,
    data_file_hash: Seq<u8>,
    total_chunks: u64,
    data_file_path: Seq<char>,
    public_key: Seq<u8>,
    initial_block_height: u64,
    initial_block_hash: Seq<u8>,
) -> bool {
    &&& h.magic@ == hashchain_magic()
    &&& h.format_version == HASHCHAIN_FORMAT_VERSION
    &&& h.data_file_hash@ == data_file_hash
    &&& h.merkle_root@ == zero_hash()
    &&& h.total_chunks == total_chunks
    &&& h.chunk_size == CHUNK_SIZE_BYTES
    &&& h.data_file_path_hash@ == sha256_spec(vstd::utf8::encode_utf8(data_file_path))
    &&& h.anchored_commitment@ == zero_hash()
    &&& h.chain_length == 0
    &&& h.public_key@ == public_key
    &&& h.initial_block_height == initial_block_height
    &&& h.initial_block_hash@ == initial_block_hash
    &&& h.header_checksum@ == zero_hash()
}

/// Builds the header of a chain whose data was just streamed.
fn stream_header(
    storage: &ChainStorage,
    data_file_hash: &Vec<u8>,
    public_key: &Vec<u8>,
    initial_block_height: u64,
    initial_block_hash: &Vec<u8>,
) -> (h: HashChainHeader)
    ensures
        stream_header_valid(
            h,
            data_file_hash@,
            storage.chunks(),
            storage.data_path(),
            public_key@,
            initial_block_height,
            initial_block_hash@,
        ),
{
    HashChainHeader {
        magic: hashchain_magic_bytes(),
        format_version: HASHCHAIN_FORMAT_VERSION,
        data_file_hash: copy_bytes(data_file_hash.as_slice()),
        merkle_root: zero_hash_bytes(),
        total_chunks: storage.total_chunks(),
        chunk_size: CHUNK_SIZE_BYTES,
        data_file_path_hash: sha256(storage.data_file_path().as_str().as_bytes()),
        anchored_commitment: zero_hash_bytes(),
        chain_length: 0,
        public_key: copy_bytes(public_key.as_slice()),
        initial_block_height,
        initial_block_hash: copy_bytes(initial_block_hash.as_slice()),
        header_checksum: zero_hash_bytes(),
    }
}

/// One prover's hash chain over one data file.
pub struct IndividualHashChain {
    /// Chain identifier.
    pub chain_id: Vec<u8>,
    /// Owner's public key.
    pub public_key: Vec<u8>,
    /// The data file, once data is streamed.
    pub storage: Option<ChainStorage>,
    /// Hash of the latest commitment.
    pub current_commitment: Option<Vec<u8>>,
    /// Number of commitments added.
    pub chain_length: u32,
    /// Initial block height.
    pub initial_block_height: u64,
    /// Initial block hash.
    pub initial_block_hash: Vec<u8>,
    /// The commitments, oldest first.
    pub commitments: Vec<PhysicalAccessCommitment>,
    /// The file header.
    pub header: Option<HashChainHeader>,
}

impl IndividualHashChain {
    /// Creates a chain from streamed data: the data is stored encoded for
    /// `public_key` (see `ChainStorage::create_from_stream`), the identifier
    /// is derived from the key and the hash of the decoded data, and the
    /// header describes the new file. Errors of the storage and of the file
    /// hash are passed on.
    pub fn new_from_stream(
        public_key: Vec<u8>,
        data_stream: &[u8],
        output_dir: String,
        initial_block_height: u64,
        initial_block_hash: Vec<u8>,
    ) -> (r: HashChainResult<IndividualHashChain>)
        requires
            data_stream@.len() <= u32::MAX as nat * CHUNK_SIZE_BYTES,
        ensures
            public_key@.len() != 32 ==> (r matches Err(e) && e is FileFormat),
            r matches Ok(c) ==> {
                let s = c.storage.unwrap();
                &&& c.storage is Some
                &&& s.key() == Some(public_key@)
                &&& s.size() == data_stream@.len()
                &&& s.data_path() == stream_paths(output_dir@, data_stream@).0
                &&& c.chain_id@ == chain_id_spec(public_key@, blake3_spec(s.decoded_prefix(s.chunks() as nat)))
                &&& c.public_key@ == public_key@
                &&& c.current_commitment is None
                &&& c.chain_length == 0
                &&& c.initial_block_height == initial_block_height
                &&& c.initial_block_hash@ == initial_block_hash@
                &&& c.commitments@.len() == 0
                &&& c.header is Some
                &&& stream_header_valid(
                    c.header.unwrap(),
                    blake3_spec(s.decoded_prefix(s.chunks() as nat)),
                    s.chunks(),
                    stream_paths(output_dir@, data_stream@).0,
                    public_key@,
                    initial_block_height,
                    initial_block_hash@,
                )
            },
    {
        let storage = ChainStorage::create_from_stream(data_stream, output_dir.as_str(), &public_key)?;
        let data_file_hash = storage.compute_file_hash()?;
        let chain_id = generate_chain_id(public_key.as_slice(), data_file_hash.as_slice());
        let header = stream_header(&storage, &data_file_hash, &public_key, initial_block_height, &initial_block_hash);
        Ok(IndividualHashChain {
            chain_id,
            public_key,
            storage: Some(storage),
            current_commitment: None,
            chain_length: 0,
            initial_block_height,
            initial_block_hash,
            commitments: Vec::new(),
            header: Some(header),
        })
    }

    /// Opens a chain from its header, its data file and the commitments read
    /// from its `.hashchain` file.
    ///
    /// A magic other than "HCH2" or a version other than the current one is
    /// a file-format error, as is a header key that is not 32 bytes (it is
    /// set as the storage's decoding key). The identifier is derived from
    /// the header's key and data hash; the current commitment is the
    /// anchored one when the chain has links.
    pub fn load_from_file(
        header: HashChainHeader,
        storage: ChainStorage,
        commitments: Vec<PhysicalAccessCommitment>,
    ) -> (r: HashChainResult<IndividualHashChain>)
        ensures
            header.magic@ != hashchain_magic() ==> (r matches Err(e) && e is FileFormat),
            header.magic@ == hashchain_magic() && header.format_version != HASHCHAIN_FORMAT_VERSION ==> (r matches Err(
                e,
            ) && e is FileFormat),
            header.magic@ == hashchain_magic() && header.format_version == HASHCHAIN_FORMAT_VERSION
                && header.public_key@.len() != 32 ==> (r matches Err(e) && e is FileFormat),
            header.magic@ == hashchain_magic() && header.format_version == HASHCHAIN_FORMAT_VERSION
                && header.public_key@.len() == 32 ==> (r matches Ok(c) && {
                &&& c.chain_id@ == chain_id_spec(header.public_key@, header.data_file_hash@)
                &&& c.public_key@ == header.public_key@
                &&& c.storage is Some
                &&& c.storage.unwrap().key() == Some(header.public_key@)
                &&& c.storage.unwrap().bytes() == storage.bytes()
                &&& c.storage.unwrap().chunks() == storage.chunks()
                &&& c.chain_length == header.chain_length
                &&& (header.chain_length > 0 ==> (c.current_commitment matches Some(h) && h@
                    == header.anchored_commitment@))
                &&& (header.chain_length == 0 ==> c.current_commitment is None)
                &&& c.initial_block_height == header.initial_block_height
                &&& c.initial_block_hash@ == header.initial_block_hash@
                &&& c.commitments@ == commitments@
                &&& c.header == Some(header)
            }),
    {
        let magic = hashchain_magic_bytes();
        if !bytes_equal(header.magic.as_slice(), magic.as_slice()) {
            return Err(HashChainError::FileFormat(String::from_str("Invalid HashChain magic number")));
        }
        if header.format_version != HASHCHAIN_FORMAT_VERSION {
            return Err(HashChainError::FileFormat(String::from_str("Unsupported format version")));
        }
        let mut storage = storage;
        storage.set_prover_key(copy_bytes(header.public_key.as_slice()))?;
        let chain_id = generate_chain_id(header.public_key.as_slice(), header.data_file_hash.as_slice());
        let current_commitment = if header.chain_length > 0 {
            Some(copy_bytes(header.anchored_commitment.as_slice()))
        } else {
            None
        };
        Ok(IndividualHashChain {
            chain_id,
            public_key: copy_bytes(header.public_key.as_slice()),
            storage: Some(storage),
            current_commitment,
            chain_length: header.chain_length,
            initial_block_height: header.initial_block_height,
            initial_block_hash: copy_bytes(header.initial_block_hash.as_slice()),
            commitments,
            header: Some(header),
        })
    }

    /// A chain without data yet: zero identifier, no storage, no commitments.
    pub fn new_minimal(public_key: Vec<u8>, initial_block_height: u64, initial_block_hash: Vec<u8>) -> (r:
        HashChainResult<IndividualHashChain>)
        ensures
            r matches Ok(c) && {
                &&& c.chain_id@ == zero_hash()
                &&& c.public_key@ == public_key@
                &&& c.storage is None
                &&& c.current_commitment is None
                &&& c.chain_length == 0
                &&& c.initial_block_height == initial_block_height
                &&& c.initial_block_hash@ == initial_block_hash@
                &&& c.commitments@.len() == 0
                &&& c.header is None
            },
    {
        Ok(IndividualHashChain {
            chain_id: zero_hash_bytes(),
            public_key,
            storage: None,
            current_commitment: None,
            chain_length: 0,
            initial_block_height,
            initial_block_hash,
            commitments: Vec::new(),
            header: None,
        })
    }

    /// Streams data into a chain (as `new_from_stream`, keeping this chain's
    /// key, heights, commitments and length). On an error the chain is left
    /// as it was.
    pub fn stream_data(&mut self, data_stream: &[u8], output_dir: String) -> (r:
        HashChainResult<()>)
        requires
            data_stream@.len() <= u32::MAX as nat * CHUNK_SIZE_BYTES,
        ensures
            old(self).public_key@.len() != 32 ==> (r matches Err(e) && e is FileFormat),
            old(self).public_key@.len() == 32 && chunk_count(data_stream@.len() as u64) > HASHCHAIN_MAX_CHUNKS ==> (r matches Err(
                e,
            ) && e is TooManyChunks),
            old(self).public_key@.len() == 32 && chunk_count(data_stream@.len() as u64) < HASHCHAIN_MIN_CHUNKS ==> (r matches Err(
                e,
            ) && e is TooFewChunks),
            r is Ok <==> stream_accepted(old(self).public_key@, data_stream@.len()),
            r is Err ==> *final(self) == *old(self),
            r is Ok ==> {
                let s = final(self).storage.unwrap();
                &&& final(self).storage is Some
                &&& s.key() == Some(old(self).public_key@)
                &&& s.size() == data_stream@.len()
                &&& s.data_path() == stream_paths(output_dir@, data_stream@).0
                &&& final(self).chain_id@ == chain_id_spec(
                    old(self).public_key@,
                    blake3_spec(s.decoded_prefix(s.chunks() as nat)),
                )
                &&& final(self).header is Some
                &&& stream_header_valid(
                    final(self).header.unwrap(),
                    blake3_spec(s.decoded_prefix(s.chunks() as nat)),
                    s.chunks(),
                    stream_paths(output_dir@, data_stream@).0,
                    old(self).public_key@,
                    old(self).initial_block_height,
                    old(self).initial_block_hash@,
                )
                &&& final(self).public_key == old(self).public_key
                &&& final(self).current_commitment == old(self).current_commitment
                &&& final(self).chain_length == old(self).chain_length
                &&& final(self).initial_block_height == old(self).initial_block_height
                &&& final(self).initial_block_hash == old(self).initial_block_hash
                &&& final(self).commitments == old(self).commitments
            },
    {
        let storage = ChainStorage::create_from_stream(data_stream, output_dir.as_str(), &self.public_key)?;
        let data_file_hash = storage.compute_file_hash()?;
        let chain_id = generate_chain_id(self.public_key.as_slice(), data_file_hash.as_slice());
        let header = stream_header(
            &storage,
            &data_file_hash,
            &self.public_key,
            self.initial_block_height,
            &self.initial_block_hash,
        );
        self.chain_id = chain_id;
        self.storage = Some(storage);
        self.header = Some(header);
        Ok(())
    }

    /// The head of the chain names its last commitment: the current
    /// commitment is the hash of the last commitment, and is absent when
    /// there is none.
    pub open spec fn head_consistent(&self) -> bool {
        if self.commitments@.len() == 0 {
            self.current_commitment is None
        } else {
            self.current_commitment matches Some(h) && h@ == self.commitments@.last().commitment_hash@
        }
    }

    /// The hash the next commitment links to: the current commitment, or 32
    /// zero bytes before the first one.
    pub open spec fn link_hash(&self) -> Seq<u8> {
        match self.current_commitment {
            Some(h) => h@,
            None => zero_hash(),
        }
    }

    /// Adds the commitment of a block: the selected chunks are read and
    /// hashed, the commitment links to the current one and carries the hash
    /// of its fields (`chain_commitment_hash`), and becomes the current one.
    ///
    /// Without storage the result is `NoDataStreamed`; a chunk that cannot
    /// be read gives the read's error. On an error nothing changes.
    #[verifier::rlimit(40)]
    pub fn add_commitment(&mut self, block_hash: Vec<u8>, block_height: u64, selected_chunks: Vec<u32>) -> (r:
        HashChainResult<PhysicalAccessCommitment>)
        requires
            old(self).chain_length < u32::MAX,
        ensures
            old(self).storage is None ==> r == Err::<PhysicalAccessCommitment, HashChainError>(
                HashChainError::NoDataStreamed,
            ),
            old(self).storage is Some ==> (r is Ok <==> forall|i: int|
                0 <= i < selected_chunks@.len() ==> #[trigger] old(self).storage.unwrap().chunk_readable(
                    selected_chunks@[i],
                )),
            r is Err ==> *final(self) == *old(self),
            r matches Ok(c) ==> {
                &&& c.block_height == block_height
                &&& c.previous_commitment@ == old(self).link_hash()
                &&& c.block_hash@ == block_hash@
                &&& c.selected_chunks@ == selected_chunks@
                &&& c.chunk_hashes@.len() == selected_chunks@.len()
                &&& (forall|i: int|
                    0 <= i < selected_chunks@.len() ==> #[trigger] c.chunk_hashes@[i]@ == sha256_spec(
                        old(self).storage.unwrap().chunk_content(selected_chunks@[i]),
                    ))
                &&& c.commitment_hash@ == chain_commitment_hash(c)
                &&& final(self).commitments@.len() == old(self).commitments@.len() + 1
                &&& final(self).commitments@.drop_last() == old(self).commitments@
                &&& same_commitment(final(self).commitments@.last(), c)
                &&& (final(self).current_commitment matches Some(h) && h@ == c.commitment_hash@)
                &&& final(self).chain_length == old(self).chain_length + 1
                &&& final(self).chain_id == old(self).chain_id
                &&& final(self).public_key == old(self).public_key
                &&& final(self).storage == old(self).storage
                &&& final(self).initial_block_height == old(self).initial_block_height
                &&& final(self).initial_block_hash == old(self).initial_block_hash
                &&& final(self).header == old(self).header
            },
            r is Ok ==> final(self).head_consistent(),
            r is Ok && chain_valid(old(self).commitments@) && old(self).head_consistent() && (old(
                self,
            ).commitments@.len() > 0 ==> block_height == old(self).commitments@.last().block_height + 1)
                ==> chain_valid(final(self).commitments@),
    {
        let chunk_hashes = match &self.storage {
            None => {
                return Err(HashChainError::NoDataStreamed);
            },
            Some(storage) => storage.compute_chunk_hashes(&selected_chunks)?,
        };
        let previous_commitment = match &self.current_commitment {
            Some(h) => copy_bytes(h.as_slice()),
            None => zero_hash_bytes(),
        };
        let mut commitment = PhysicalAccessCommitment {
            block_height,
            previous_commitment,
            block_hash,
            selected_chunks,
            chunk_hashes,
            commitment_hash: zero_hash_bytes(),
        };
        let ghost unhashed = commitment;
        let commitment_hash = compute_commitment_hash(&commitment);
        commitment.commitment_hash = commitment_hash;
        proof {
            lemma_hash_ignores_stored_hash(unhashed, commitment);
        }
        let stored = copy_commitment(&commitment);
        let ghost before = self.commitments@;
        self.commitments.push(stored);
        assert(self.commitments@.drop_last() =~= before);
        self.current_commitment = Some(copy_bytes(commitment.commitment_hash.as_slice()));
        self.chain_length = self.chain_length + 1;
        proof {
            let last = self.commitments@.last();
            lemma_same_commitment_hash(last, commitment);
            if chain_valid(old(self).commitments@) && old(self).head_consistent() && (old(self).commitments@.len() > 0
                ==> block_height == old(self).commitments@.last().block_height + 1) {
                assert(self.commitments@ =~= old(self).commitments@.push(last));
                lemma_add_commitment_keeps_chain_valid(old(self).commitments@, last);
            }
        }
        Ok(commitment)
    }

    /// Cuts the proof window from the end of the chain: the last
    /// `PROOF_WINDOW_BLOCKS` commitments, `CHUNKS_PER_BLOCK` placeholder
    /// Merkle proofs of 32 zero bytes, and the hashes of the first and last
    /// commitments of the window. A shorter chain is `ChainTooShort`.
    pub fn get_proof_window(&self) -> (r: HashChainResult<ProofWindow>)
        ensures
            self.commitments@.len() < PROOF_WINDOW_BLOCKS ==> r == Err::<ProofWindow, HashChainError>(
                HashChainError::ChainTooShort {
                    length: self.commitments@.len() as u32,
                    required: PROOF_WINDOW_BLOCKS,
                },
            ),
            self.commitments@.len() >= PROOF_WINDOW_BLOCKS ==> (r matches Ok(w) && {
                let n = self.commitments@.len();
                let start = n - PROOF_WINDOW_BLOCKS;
                &&& w.commitments@.len() == PROOF_WINDOW_BLOCKS
                &&& (forall|i: int|
                    0 <= i < PROOF_WINDOW_BLOCKS ==> same_commitment(
                        #[trigger] w.commitments@[i],
                        self.commitments@[start + i],
                    ))
                &&& w.merkle_proofs@.len() == CHUNKS_PER_BLOCK
                &&& (forall|i: int| 0 <= i < CHUNKS_PER_BLOCK ==> #[trigger] w.merkle_proofs@[i]@ == zero_hash())
                &&& w.start_commitment@ == self.commitments@[start].commitment_hash@
                &&& w.end_commitment@ == self.commitments@[n - 1].commitment_hash@
            }),
    {
        let n = self.commitments.len();
        if n < PROOF_WINDOW_BLOCKS as usize {
            return Err(HashChainError::ChainTooShort { length: n as u32, required: PROOF_WINDOW_BLOCKS });
        }
        let start = n - PROOF_WINDOW_BLOCKS as usize;
        let mut window: Vec<PhysicalAccessCommitment> = Vec::new();
        let mut i: usize = start;
        while i < n
            invariant
                start <= i <= n,
                n == self.commitments@.len(),
                window@.len() == i - start,
                forall|j: int|
                    0 <= j < i - start ==> same_commitment(#[trigger] window@[j], self.commitments@[start + j]),
            decreases n - i,
        {
            window.push(copy_commitment(&self.commitments[i]));
            i = i + 1;
        }
        let mut merkle_proofs: Vec<Vec<u8>> = Vec::new();
        let mut k: usize = 0;
        while k < CHUNKS_PER_BLOCK as usize
            invariant
                k <= CHUNKS_PER_BLOCK,
                merkle_proofs@.len() == k,
                forall|j: int| 0 <= j < k ==> #[trigger] merkle_proofs@[j]@ == zero_hash(),
            decreases CHUNKS_PER_BLOCK - k,
        {
            merkle_proofs.push(zero_hash_bytes());
            k = k + 1;
        }
        let start_commitment = copy_bytes(self.commitments[start].commitment_hash.as_slice());
        let end_commitment = copy_bytes(self.commitments[n - 1].commitment_hash.as_slice());
        Ok(ProofWindow { commitments: window, merkle_proofs, start_commitment, end_commitment })
    }

    /// Reads a chunk of the chain's data (see `ChainStorage::read_chunk`);
    /// without storage the result is `NoDataStreamed`.
    pub fn read_chunk(&self, chunk_index: u32) -> (r: HashChainResult<Vec<u8>>)
        ensures
            self.storage is None ==> r == Err::<Vec<u8>, HashChainError>(HashChainError::NoDataStreamed),
            self.storage is Some ==> (r is Ok <==> self.storage.unwrap().chunk_readable(chunk_index)),
            r matches Ok(v) ==> v@ == self.storage.unwrap().chunk_content(chunk_index),
    {
        match &self.storage {
            Some(storage) => storage.read_chunk(chunk_index),
            None => Err(HashChainError::NoDataStreamed),
        }
    }

    /// The chunk count of the data, 0 without storage.
    pub fn get_total_chunks(&self) -> (n: u64)
        ensures
            n == (match self.storage {
                Some(s) => s.chunks(),
                None => 0,
            }),
    {
        match &self.storage {
            Some(storage) => storage.total_chunks(),
            None => 0,
        }
    }

    /// Checks the whole chain (`chain_valid`): consecutive commitments link
    /// and climb one block at a time, and every commitment carries the hash
    /// of its own fields.
    pub fn verify_chain(&self) -> (r: HashChainResult<bool>)
        ensures
            r matches Ok(b) && b == chain_valid(self.commitments@),
            r matches Ok(true) ==> forall|i: int|
                0 < i < self.commitments@.len() ==> #[trigger] self.commitments@[i].block_height
                    == self.commitments@[i - 1].block_height + 1 && self.commitments@[i].previous_commitment@
                    == self.commitments@[i - 1].commitment_hash@,
    {

        let cs = &self.commitments;
        let mut i: usize = 1;
        while i < cs.len()
            invariant
                1 <= i,
                cs@ == self.commitments@,
                forall|j: int| 0 < j < i && j < cs@.len() ==> #[trigger] link_ok(cs@, j),
            decreases cs@.len() - i,
        {
            let prev = &cs[i - 1];
            let curr = &cs[i];
            if !bytes_equal(prev.commitment_hash.as_slice(), curr.previous_commitment.as_slice()) {
                assert(!link_ok(cs@, i as int));
                return Ok(false);
            }
            if prev.block_height == u64::MAX || curr.block_height != prev.block_height + 1 {
                assert(!link_ok(cs@, i as int));
                return Ok(false);
            }
            i = i + 1;
        }
        assert(chain_linked(cs@));
        let mut k: usize = 0;
        while k < cs.len()
            invariant
                k <= cs@.len(),
                cs@ == self.commitments@,
                chain_linked(cs@),
                forall|j: int| 0 <= j < k ==> #[trigger] hash_ok(cs@[j]),
            decreases cs@.len() - k,
        {
            let computed = compute_commitment_hash(&cs[k]);
            if !bytes_equal(computed.as_slice(), cs[k].commitment_hash.as_slice()) {
                assert(!hash_ok(cs@[k as int]));
                return Ok(false);
            }
            k = k + 1;
        }
        proof {
            lemma_valid_chain_heights_consecutive(cs@);
        }
        Ok(true)
    }

    /// The chain identifier.
    pub fn get_chain_id(&self) -> (id: Vec<u8>)
        ensures
            id@ == self.chain_id@,
    {
        copy_bytes(self.chain_id.as_slice())
    }
}

/// In a valid chain every commitment names the hash of the one before it
/// and sits exactly one block above it, so the heights run without gaps
/// from the first: commitment `i` is at the first height plus `i`.
pub proof fn lemma_valid_chain_heights_consecutive(cs: Seq<PhysicalAccessCommitment>)
    requires
        chain_valid(cs),
    ensures
        forall|i: int|
            0 < i < cs.len() ==> #[trigger] cs[i].block_height == cs[i - 1].block_height + 1
                && cs[i].previous_commitment@ == cs[i - 1].commitment_hash@,
        forall|i: int| 0 <= i < cs.len() ==> #[trigger] cs[i].block_height == cs[0].block_height + i,
{
    assert forall|i: int| 0 < i < cs.len() implies #[trigger] cs[i].block_height == cs[i - 1].block_height + 1
        && cs[i].previous_commitment@ == cs[i - 1].commitment_hash@ by {
        assert(link_ok(cs, i));
    }
    assert forall|i: int| 0 <= i < cs.len() implies #[trigger] cs[i].block_height == cs[0].block_height + i by {
        lemma_heights_from_first(cs, i);
    }
}

/// Heights climb one per position from the first commitment.
proof fn lemma_heights_from_first(cs: Seq<PhysicalAccessCommitment>, i: int)
    requires
        chain_linked(cs),
        0 <= i < cs.len(),
    ensures
        cs[i].block_height == cs[0].block_height + i,
    decreases i,
{
    if i > 0 {
        assert(link_ok(cs, i));
        lemma_heights_from_first(cs, i - 1);
    }
}

} // verus!
