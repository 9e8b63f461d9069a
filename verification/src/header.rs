//! The `.hashchain` file: a JSON header, or JSON commitment records one per
//! line. This module reads the file's text: which lines count, which fields
//! are read, and what each field becomes, defaults included.
use vstd::prelude::*;
use vstd::string::StringSliceAdditionalSpecFns;

use crate::consts::{hashchain_magic, hashchain_magic_bytes, CHUNK_SIZE_BYTES, HASHCHAIN_FORMAT_VERSION};
use crate::crypto::{hex_decode, hex_decode_spec};
use crate::json::{
    items_of, json_document, json_field, parse_json, text_field, text_items, text_list_field, text_of,
    unsigned_field, unsigned_items, unsigned_list_field, unsigned_of, whole_field, whole_of, JsonValue,
};
use crate::seqs::byte_views;
use crate::types::PhysicalAccessCommitment;

verus! {

/// Header of a `.hashchain` file.
pub struct HashChainHeader {
    /// File format identifier ("HCH2").
    pub magic: Vec<u8>,
    /// Format version.
    pub format_version: u32,
    /// SHA-256 of the data file.
    pub data_file_hash: Vec<u8>,
    /// Merkle root of the chunks.
    pub merkle_root: Vec<u8>,
    /// Number of chunks.
    pub total_chunks: u64,
    /// Chunk size in bytes.
    pub chunk_size: u32,
    /// SHA-256 of the data file path.
    pub data_file_path_hash: Vec<u8>,
    /// The anchored commitment.
    pub anchored_commitment: Vec<u8>,
    /// Number of chain links.
    pub chain_length: u32,
    /// Prover's public key.
    pub public_key: Vec<u8>,
    /// Initial block height.
    pub initial_block_height: u64,
    /// Initial block hash.
    pub initial_block_hash: Vec<u8>,
    /// Checksum of the header fields.
    pub header_checksum: Vec<u8>,
}

/// The values read from a JSON header record: a hex text or a number per
/// field, `None` where the field is absent or of another JSON type.
pub struct HeaderFields {
    pub magic: Option<String>,
    pub format_version: Option<u64>,
    pub data_file_hash: Option<String>,
    pub merkle_root: Option<String>,
    pub total_chunks: Option<u64>,
    pub chunk_size: Option<u64>,
    pub data_file_path_hash: Option<String>,
    pub anchored_commitment: Option<String>,
    pub chain_length: Option<u64>,
    pub public_key: Option<String>,
    pub initial_block_height: Option<u64>,
    pub initial_block_hash: Option<String>,
    pub header_checksum: Option<String>,
}

/// The values read from a JSON commitment record.
pub struct CommitmentFields {
    pub block_height: Option<u64>,
    pub previous_commitment: Option<String>,
    pub block_hash: Option<String>,
    /// The entries of `selected_chunks` that are unsigned integers, or
    /// `None` where the field is not an array.
    pub selected_chunks: Option<Vec<u64>>,
    /// The entries of `chunk_hashes` that are strings, or `None` where the
    /// field is not an array.
    pub chunk_hashes: Option<Vec<String>>,
    pub commitment_hash: Option<String>,
}

/// The bytes of a text field: an absent field reads as the empty text,
/// which decodes to no bytes; a text that is not hex gives the default.
pub open spec fn hex_field(text: Option<String>, default: Seq<u8>) -> Seq<u8> {
    let t = match text {
        Some(s) => vstd::utf8::encode_utf8(s@),
        None => Seq::empty(),
    };
    match hex_decode_spec(t) {
        Some(b) => b,
        None => default,
    }
}

/// 32 zero bytes.
pub open spec fn zero_hash() -> Seq<u8> {
    Seq::new(32, |i: int| 0u8)
}

/// 32 zero bytes.
pub fn zero_hash_bytes() -> (v: Vec<u8>)
    ensures
        v@ == zero_hash(),
{
    let mut v: Vec<u8> = Vec::new();
    let mut i: usize = 0;
    while i < 32
        invariant
            i <= 32,
            v@ =~= Seq::new(i as nat, |k: int| 0u8),
        decreases 32 - i,
    {
        v.push(0u8);
        i = i + 1;
    }
    v
}

/// Decodes a hex text field (see `hex_field`).
pub fn decode_hex_field(text: &Option<String>, default: Vec<u8>) -> (b: Vec<u8>)
    ensures
        b@ == hex_field(*text, default@),
{
    let empty: Vec<u8> = Vec::new();
    let decoded = match text {
        Some(s) => hex_decode(s.as_str().as_bytes()),
        None => hex_decode(empty.as_slice()),
    };
    match decoded {
        Some(bytes) => bytes,
        None => default,
    }
}

/// Builds the header from the values of a JSON header record. Absent
/// numbers default to the current format version, `default_total_chunks`,
/// the chunk size, and zero; numbers are taken modulo 2^32 where the field
/// is 32 bits wide. Text fields follow `hex_field`, with the magic "HCH2"
/// or 32 zero bytes as the default of a non-hex text.
pub fn header_from_fields(fields: &HeaderFields, default_total_chunks: u64) -> (h: HashChainHeader)
    ensures
        h.magic@ == hex_field(fields.magic, hashchain_magic()),
        h.format_version == (match fields.format_version {
            Some(v) => v as u32,
            None => HASHCHAIN_FORMAT_VERSION,
        }),
        h.data_file_hash@ == hex_field(fields.data_file_hash, zero_hash()),
        h.merkle_root@ == hex_field(fields.merkle_root, zero_hash()),
        h.total_chunks == (match fields.total_chunks {
            Some(v) => v,
            None => default_total_chunks,
        }),
        h.chunk_size == (match fields.chunk_size {
            Some(v) => v as u32,
            None => CHUNK_SIZE_BYTES,
        }),
        h.data_file_path_hash@ == hex_field(fields.data_file_path_hash, zero_hash()),
        h.anchored_commitment@ == hex_field(fields.anchored_commitment, zero_hash()),
        h.chain_length == (match fields.chain_length {
            Some(v) => v as u32,
            None => 0u32,
        }),
        h.public_key@ == hex_field(fields.public_key, zero_hash()),
        h.initial_block_height == (match fields.initial_block_height {
            Some(v) => v,
            None => 0u64,
        }),
        h.initial_block_hash@ == hex_field(fields.initial_block_hash, zero_hash()),
        h.header_checksum@ == hex_field(fields.header_checksum, zero_hash()),
{
    HashChainHeader {
        magic: decode_hex_field(&fields.magic, hashchain_magic_bytes()),
        format_version: match fields.format_version {
            Some(v) => v as u32,
            None => HASHCHAIN_FORMAT_VERSION,
        },
        data_file_hash: decode_hex_field(&fields.data_file_hash, zero_hash_bytes()),
        merkle_root: decode_hex_field(&fields.merkle_root, zero_hash_bytes()),
        total_chunks: match fields.total_chunks {
            Some(v) => v,
            None => default_total_chunks,
        },
        chunk_size: match fields.chunk_size {
            Some(v) => v as u32,
            None => CHUNK_SIZE_BYTES,
        },
        data_file_path_hash: decode_hex_field(&fields.data_file_path_hash, zero_hash_bytes()),
        anchored_commitment: decode_hex_field(&fields.anchored_commitment, zero_hash_bytes()),
        chain_length: match fields.chain_length {
            Some(v) => v as u32,
            None => 0u32,
        },
        public_key: decode_hex_field(&fields.public_key, zero_hash_bytes()),
        initial_block_height: match fields.initial_block_height {
            Some(v) => v,
            None => 0u64,
        },
        initial_block_hash: decode_hex_field(&fields.initial_block_hash, zero_hash_bytes()),
        header_checksum: decode_hex_field(&fields.header_checksum, zero_hash_bytes()),
    }
}

/// The header assumed for a file that is not a JSON record: the current
/// magic and version, `total_chunks` chunks of the standard size, zero
/// hashes, no links, height 0.
pub fn legacy_header(total_chunks: u64) -> (h: HashChainHeader)
    ensures
        h.magic@ == hashchain_magic(),
        h.format_version == HASHCHAIN_FORMAT_VERSION,
        h.total_chunks == total_chunks,
        h.chunk_size == CHUNK_SIZE_BYTES,
        h.chain_length == 0,
        h.initial_block_height == 0,
        h.data_file_hash@ == zero_hash(),
        h.merkle_root@ == zero_hash(),
        h.data_file_path_hash@ == zero_hash(),
        h.anchored_commitment@ == zero_hash(),
        h.public_key@ == zero_hash(),
        h.initial_block_hash@ == zero_hash(),
        h.header_checksum@ == zero_hash(),
{
    HashChainHeader {
        magic: hashchain_magic_bytes(),
        format_version: HASHCHAIN_FORMAT_VERSION,
        data_file_hash: zero_hash_bytes(),
        merkle_root: zero_hash_bytes(),
        total_chunks,
        chunk_size: CHUNK_SIZE_BYTES,
        data_file_path_hash: zero_hash_bytes(),
        anchored_commitment: zero_hash_bytes(),
        chain_length: 0,
        public_key: zero_hash_bytes(),
        initial_block_height: 0,
        initial_block_hash: zero_hash_bytes(),
        header_checksum: zero_hash_bytes(),
    }
}

/// The decodable entries of a list of hex texts, in order.
pub open spec fn decodable_hashes(texts: Seq<String>) -> Seq<Seq<u8>>
    decreases texts.len(),
{
    if texts.len() == 0 {
        Seq::empty()
    } else {
        let prev = decodable_hashes(texts.drop_last());
        match hex_decode_spec(vstd::utf8::encode_utf8(texts.last()@)) {
            Some(b) => prev.push(b),
            None => prev,
        }
    }
}

/// Builds a commitment from the values of a JSON commitment record: an
/// absent height is 0, hashes follow `hex_field` with 32 zero bytes as the
/// default, chunk indices are taken modulo 2^32 and chunk hashes that do not
/// decode are left out.
pub fn commitment_from_fields(fields: &CommitmentFields) -> (c: PhysicalAccessCommitment)
    ensures
        c.block_height == (match fields.block_height {
            Some(v) => v,
            None => 0u64,
        }),
        c.previous_commitment@ == hex_field(fields.previous_commitment, zero_hash()),
        c.block_hash@ == hex_field(fields.block_hash, zero_hash()),
        c.selected_chunks@ == (match fields.selected_chunks {
            Some(v) => v@.map_values(|x: u64| x as u32),
            None => Seq::empty(),
        }),
        byte_views(c.chunk_hashes@) == (match fields.chunk_hashes {
            Some(v) => decodable_hashes(v@),
            None => Seq::empty(),
        }),
        c.commitment_hash@ == hex_field(fields.commitment_hash, zero_hash()),
{
    let mut selected_chunks: Vec<u32> = Vec::new();
    match &fields.selected_chunks {
        Some(v) => {
            let mut i: usize = 0;
            while i < v.len()
                invariant
                    i <= v@.len(),
                    selected_chunks@ =~= v@.subrange(0, i as int).map_values(|x: u64| x as u32),
                decreases v@.len() - i,
            {
                selected_chunks.push(v[i] as u32);
                i = i + 1;
            }
            assert(v@.subrange(0, v@.len() as int) =~= v@);
        },
        None => {},
    }
    let mut chunk_hashes: Vec<Vec<u8>> = Vec::new();
    match &fields.chunk_hashes {
        Some(v) => {
            let mut i: usize = 0;
            while i < v.len()
                invariant
                    i <= v@.len(),
                    byte_views(chunk_hashes@) =~= decodable_hashes(v@.subrange(0, i as int)),
                decreases v@.len() - i,
            {
                assert(v@.subrange(0, i + 1).drop_last() =~= v@.subrange(0, i as int));
                match hex_decode(v[i].as_str().as_bytes()) {
                    Some(b) => {
                        chunk_hashes.push(b);
                        assert(byte_views(chunk_hashes@) =~= decodable_hashes(v@.subrange(0, i + 1)));
                    },
                    None => {},
                }
                i = i + 1;
            }
            assert(v@.subrange(0, v@.len() as int) =~= v@);
        },
        None => {
            assert(byte_views(chunk_hashes@) =~= Seq::empty());
        },
    }
    PhysicalAccessCommitment {
        block_height: match fields.block_height {
            Some(v) => v,
            None => 0u64,
        },
        previous_commitment: decode_hex_field(&fields.previous_commitment, zero_hash_bytes()),
        block_hash: decode_hex_field(&fields.block_hash, zero_hash_bytes()),
        selected_chunks,
        chunk_hashes,
        commitment_hash: decode_hex_field(&fields.commitment_hash, zero_hash_bytes()),
    }
}

/// The fields of a header record, read as the header reads them: texts,
/// `format_version`, `chunk_size` and `chain_length` as unsigned integers,
/// `total_chunks` and `initial_block_height` as numbers cut to whole ones.
pub open spec fn header_fields_match(f: HeaderFields, record: JsonValue) -> bool {
    &&& f.magic == text_of(json_field(record, "magic"@))
    &&& f.format_version == unsigned_of(json_field(record, "format_version"@))
    &&& f.data_file_hash == text_of(json_field(record, "data_file_hash"@))
    &&& f.merkle_root == text_of(json_field(record, "merkle_root"@))
    &&& f.total_chunks == whole_of(json_field(record, "total_chunks"@))
    &&& f.chunk_size == unsigned_of(json_field(record, "chunk_size"@))
    &&& f.data_file_path_hash == text_of(json_field(record, "data_file_path_hash"@))
    &&& f.anchored_commitment == text_of(json_field(record, "anchored_commitment"@))
    &&& f.chain_length == unsigned_of(json_field(record, "chain_length"@))
    &&& f.public_key == text_of(json_field(record, "public_key"@))
    &&& f.initial_block_height == whole_of(json_field(record, "initial_block_height"@))
    &&& f.initial_block_hash == text_of(json_field(record, "initial_block_hash"@))
    &&& f.header_checksum == text_of(json_field(record, "header_checksum"@))
}

/// The header that `header_from_fields` builds from the fields of `record`.
pub open spec fn header_read_from(h: HashChainHeader, record: JsonValue, default_total_chunks: u64) -> bool {
    &&& h.magic@ == hex_field(text_of(json_field(record, "magic"@)), hashchain_magic())
    &&& h.format_version == (match unsigned_of(json_field(record, "format_version"@)) {
        Some(v) => v as u32,
        None => HASHCHAIN_FORMAT_VERSION,
    })
    &&& h.data_file_hash@ == hex_field(text_of(json_field(record, "data_file_hash"@)), zero_hash())
    &&& h.merkle_root@ == hex_field(text_of(json_field(record, "merkle_root"@)), zero_hash())
    &&& h.total_chunks == (match whole_of(json_field(record, "total_chunks"@)) {
        Some(v) => v,
        None => default_total_chunks,
    })
    &&& h.chunk_size == (match unsigned_of(json_field(record, "chunk_size"@)) {
        Some(v) => v as u32,
        None => CHUNK_SIZE_BYTES,
    })
    &&& h.data_file_path_hash@ == hex_field(text_of(json_field(record, "data_file_path_hash"@)), zero_hash())
    &&& h.anchored_commitment@ == hex_field(text_of(json_field(record, "anchored_commitment"@)), zero_hash())
    &&& h.chain_length == (match unsigned_of(json_field(record, "chain_length"@)) {
        Some(v) => v as u32,
        None => 0u32,
    })
    &&& h.public_key@ == hex_field(text_of(json_field(record, "public_key"@)), zero_hash())
    &&& h.initial_block_height == (match whole_of(json_field(record, "initial_block_height"@)) {
        Some(v) => v,
        None => 0u64,
    })
    &&& h.initial_block_hash@ == hex_field(text_of(json_field(record, "initial_block_hash"@)), zero_hash())
    &&& h.header_checksum@ == hex_field(text_of(json_field(record, "header_checksum"@)), zero_hash())
}

/// The header assumed where the file is not a JSON document (see
/// `legacy_header`).
pub open spec fn is_legacy_header(h: HashChainHeader, total_chunks: u64) -> bool {
    &&& h.magic@ == hashchain_magic()
    &&& h.format_version == HASHCHAIN_FORMAT_VERSION
    &&& h.total_chunks == total_chunks
    &&& h.chunk_size == CHUNK_SIZE_BYTES
    &&& h.chain_length == 0
    &&& h.initial_block_height == 0
    &&& h.data_file_hash@ == zero_hash()
    &&& h.merkle_root@ == zero_hash()
    &&& h.data_file_path_hash@ == zero_hash()
    &&& h.anchored_commitment@ == zero_hash()
    &&& h.public_key@ == zero_hash()
    &&& h.initial_block_hash@ == zero_hash()
    &&& h.header_checksum@ == zero_hash()
}

/// Reads the fields of a header record.
pub fn header_fields_of(record: &JsonValue) -> (f: HeaderFields)
    ensures
        header_fields_match(f, *record),
{
    HeaderFields {
        magic: text_field(record, "magic"),
        format_version: unsigned_field(record, "format_version"),
        data_file_hash: text_field(record, "data_file_hash"),
        merkle_root: text_field(record, "merkle_root"),
        total_chunks: whole_field(record, "total_chunks"),
        chunk_size: unsigned_field(record, "chunk_size"),
        data_file_path_hash: text_field(record, "data_file_path_hash"),
        anchored_commitment: text_field(record, "anchored_commitment"),
        chain_length: unsigned_field(record, "chain_length"),
        public_key: text_field(record, "public_key"),
        initial_block_height: whole_field(record, "initial_block_height"),
        initial_block_hash: text_field(record, "initial_block_hash"),
        header_checksum: text_field(record, "header_checksum"),
    }
}

/// Reads the header of a `.hashchain` file from its whole text: where the
/// text is one JSON document, the header is built from its fields (see
/// `header_read_from`; a document that is not an object has none, so every
/// field takes its default); otherwise the file is of the older text format
/// and gets the header of `legacy_header`.
pub fn parse_hashchain_header(contents: &str, default_total_chunks: u64) -> (h: HashChainHeader)
    ensures
        match json_document(contents.spec_bytes()) {
            Some(record) => header_read_from(h, record, default_total_chunks),
            None => is_legacy_header(h, default_total_chunks),
        },
{
    match parse_json(contents.as_bytes()) {
        Some(record) => {
            let fields = header_fields_of(&record);
            header_from_fields(&fields, default_total_chunks)
        },
        None => legacy_header(default_total_chunks),
    }
}

/// A record whose `type` is the text "commitment".
pub open spec fn is_commitment_record(record: JsonValue) -> bool {
    text_of(json_field(record, "type"@)) matches Some(t) && t@ == "commitment"@
}

/// The commitment that `commitment_from_fields` builds from the fields of
/// `record`: heights as numbers cut to whole ones, chunk indices as the
/// unsigned integers of the list, chunk hashes as its texts.
pub open spec fn commitment_read_from(c: PhysicalAccessCommitment, record: JsonValue) -> bool {
    &&& c.block_height == (match whole_of(json_field(record, "block_height"@)) {
        Some(v) => v,
        None => 0u64,
    })
    &&& c.previous_commitment@ == hex_field(text_of(json_field(record, "previous_commitment"@)), zero_hash())
    &&& c.block_hash@ == hex_field(text_of(json_field(record, "block_hash"@)), zero_hash())
    &&& c.selected_chunks@ == (match items_of(json_field(record, "selected_chunks"@)) {
        Some(items) => unsigned_items(items).map_values(|x: u64| x as u32),
        None => Seq::empty(),
    })
    &&& byte_views(c.chunk_hashes@) == (match items_of(json_field(record, "chunk_hashes"@)) {
        Some(items) => decodable_hashes(text_items(items)),
        None => Seq::empty(),
    })
    &&& c.commitment_hash@ == hex_field(text_of(json_field(record, "commitment_hash"@)), zero_hash())
}

/// Reads the fields of a commitment record.
pub fn commitment_fields_of(record: &JsonValue) -> (f: CommitmentFields)
    ensures
        f.block_height == whole_of(json_field(*record, "block_height"@)),
        f.previous_commitment == text_of(json_field(*record, "previous_commitment"@)),
        f.block_hash == text_of(json_field(*record, "block_hash"@)),
        match items_of(json_field(*record, "selected_chunks"@)) {
            Some(items) => f.selected_chunks matches Some(v) && v@ == unsigned_items(items),
            None => f.selected_chunks is None,
        },
        match items_of(json_field(*record, "chunk_hashes"@)) {
            Some(items) => f.chunk_hashes matches Some(v) && v@ == text_items(items),
            None => f.chunk_hashes is None,
        },
        f.commitment_hash == text_of(json_field(*record, "commitment_hash"@)),
{
    CommitmentFields {
        block_height: whole_field(record, "block_height"),
        previous_commitment: text_field(record, "previous_commitment"),
        block_hash: text_field(record, "block_hash"),
        selected_chunks: unsigned_list_field(record, "selected_chunks"),
        chunk_hashes: text_list_field(record, "chunk_hashes"),
        commitment_hash: text_field(record, "commitment_hash"),
    }
}

/// Builds the commitment of a commitment record.
pub fn commitment_from_record(record: &JsonValue) -> (c: PhysicalAccessCommitment)
    ensures
        commitment_read_from(c, *record),
{
    let fields = commitment_fields_of(record);
    commitment_from_fields(&fields)
}

/// Whether a record is a commitment record.
pub fn record_is_commitment(record: &JsonValue) -> (b: bool)
    ensures
        b == is_commitment_record(*record),
{
    let wanted: String = "commitment".to_owned();
    match text_field(record, "type") {
        Some(t) => t == wanted,
        None => false,
    }
}

/// The pieces of a text between its newline bytes, in order; a text that
/// ends in a newline has an empty last piece.
pub open spec fn split_lines(text: Seq<u8>) -> Seq<Seq<u8>>
    decreases text.len(),
{
    if text.len() == 0 {
        seq![Seq::<u8>::empty()]
    } else {
        let prev = split_lines(text.drop_last());
        if text.last() == 10u8 {
            prev.push(Seq::empty())
        } else {
            prev.update(prev.len() - 1, prev.last().push(text.last()))
        }
    }
}

/// The commitment records among the lines, in order: the lines that are a
/// JSON document whose `type` is "commitment".
pub open spec fn commitment_records(lines: Seq<Seq<u8>>) -> Seq<JsonValue>
    decreases lines.len(),
{
    if lines.len() == 0 {
        Seq::empty()
    } else {
        let prev = commitment_records(lines.drop_last());
        match json_document(lines.last()) {
            Some(record) => if is_commitment_record(record) {
                prev.push(record)
            } else {
                prev
            },
            None => prev,
        }
    }
}

/// Each commitment is read from the record at its place.
pub open spec fn commitments_read_from(cs: Seq<PhysicalAccessCommitment>, records: Seq<JsonValue>) -> bool {
    &&& cs.len() == records.len()
    &&& forall|i: int| 0 <= i < cs.len() ==> commitment_read_from(#[trigger] cs[i], records[i])
}

/// Appends the commitment of a line, where the line is a commitment record.
fn read_commitment_line(cs: &mut Vec<PhysicalAccessCommitment>, line: &[u8], Ghost(lines): Ghost<Seq<Seq<u8>>>)
    requires
        commitments_read_from(old(cs)@, commitment_records(lines)),
    ensures
        commitments_read_from(final(cs)@, commitment_records(lines.push(line@))),
{
    assert(lines.push(line@).drop_last() =~= lines);
    match parse_json(line) {
        Some(record) => {
            if record_is_commitment(&record) {
                let c = commitment_from_record(&record);
                cs.push(c);
            }
        },
        None => {},
    }
}

/// Reads the commitment records of a `.hashchain` file's text: the text is
/// cut at its newlines, and each piece that is a JSON document whose `type`
/// is "commitment" gives one commitment (see `commitment_read_from`), in
/// the order of the file. Other pieces, blank ones and the header among
/// them, give none.
pub fn parse_commitment_records(contents: &str) -> (cs: Vec<PhysicalAccessCommitment>)
    ensures
        commitments_read_from(cs@, commitment_records(split_lines(contents.spec_bytes()))),
{
    let bytes = contents.as_bytes();
    let n = bytes.len();
    let mut cs: Vec<PhysicalAccessCommitment> = Vec::new();
    let mut start: usize = 0;
    let mut i: usize = 0;
    let ghost mut done: Seq<Seq<u8>> = Seq::empty();
    assert(bytes@.subrange(0, 0) =~= Seq::<u8>::empty());
    assert(split_lines(bytes@.subrange(0, 0)) =~= done.push(bytes@.subrange(0, 0)));
    while i < n
        invariant
            n == bytes@.len(),
            start <= i <= n,
            split_lines(bytes@.subrange(0, i as int)) == done.push(bytes@.subrange(start as int, i as int)),
            commitments_read_from(cs@, commitment_records(done)),
        decreases n - i,
    {
        let ghost before = bytes@.subrange(0, i as int);
        assert(bytes@.subrange(0, i + 1).drop_last() =~= before);
        assert(bytes@.subrange(0, i + 1).last() == bytes@[i as int]);
        if bytes[i] == 10u8 {
            let line = vstd::slice::slice_subrange(bytes, start, i);
            read_commitment_line(&mut cs, line, Ghost(done));
            proof {
                done = done.push(line@);
            }
            start = i + 1;
            assert(bytes@.subrange(start as int, i + 1) =~= Seq::<u8>::empty());
        } else {
            assert(bytes@.subrange(start as int, i + 1) =~= bytes@.subrange(start as int, i as int).push(bytes@[i as int]));
            assert(done.push(bytes@.subrange(start as int, i as int)).update(done.len() as int, bytes@.subrange(start as int, i + 1))
                =~= done.push(bytes@.subrange(start as int, i + 1)));
        }
        i = i + 1;
    }
    let line = vstd::slice::slice_subrange(bytes, start, n);
    read_commitment_line(&mut cs, line, Ghost(done));
    assert(bytes@.subrange(0, n as int) =~= bytes@);
    cs
}

} // verus!
