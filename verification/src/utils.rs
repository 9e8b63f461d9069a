//! Input validation and the small hashing utilities shared by the modules.
use vstd::prelude::*;
use vstd::string::StringSliceAdditionalSpecFns;

use crate::bytes::{be32, be64, from_be32, u32_from_be_at, u32_to_be_bytes, u64_to_be_bytes};
use crate::chunk_selection::{append_be32_all, be32_concat};
use crate::consts::{
    CHAINS_PER_GROUP, GROUPS_PER_REGION, HASHCHAIN_MAX_CHUNKS, HASHCHAIN_MIN_CHUNKS, MAX_CHAINS_PER_INSTANCE,
};
use crate::crypto::{
    blake3_spec, chacha20_bytes, chacha20_bytes_spec, compute_blake3, compute_keccak256, hex_decode,
    hex_decode_spec, keccak256_spec, os_random_32, sha256, sha256_spec,
};
use crate::seqs::{append_all_bytes, append_bytes, byte_views, flatten_bytes};
use crate::errors::{HashChainError, HashChainResult};
use crate::seqs::{lemma_u32_leq_total, u32_leq, contains_u32, copy_bytes, distinct_u32, sort_u32, sorted_u32, u32s_equal};

verus! {

/// Fails with `InvalidPublicKeySize` unless the key has 32 bytes.
pub fn validate_public_key(public_key: &Vec<u8>) -> (r: HashChainResult<()>)
    ensures
        r is Ok <==> public_key@.len() == 32,
        r is Err ==> r == Err::<(), HashChainError>(HashChainError::InvalidPublicKeySize(public_key@.len() as usize)),
{
    if public_key.len() != 32 {
        return Err(HashChainError::InvalidPublicKeySize(public_key.len()));
    }
    Ok(())
}

/// Fails with `InvalidBlockHashSize` unless the hash has 32 bytes.
pub fn validate_block_hash(block_hash: &Vec<u8>) -> (r: HashChainResult<()>)
    ensures
        r is Ok <==> block_hash@.len() == 32,
        r is Err ==> r == Err::<(), HashChainError>(HashChainError::InvalidBlockHashSize(block_hash@.len() as usize)),
{
    if block_hash.len() != 32 {
        return Err(HashChainError::InvalidBlockHashSize(block_hash.len()));
    }
    Ok(())
}

/// Fails unless `chunk_idx` is below the chunk count taken as a `u32`
/// (the count is truncated to 32 bits before the comparison).
pub fn validate_chunk_index(chunk_idx: u32, total_chunks: u64) -> (r: HashChainResult<()>)
    ensures
        r is Ok <==> chunk_idx < total_chunks as u32,
        r is Err ==> r == Err::<(), HashChainError>(
            HashChainError::ChunkIndexOutOfRange { index: chunk_idx, max: total_chunks },
        ),
{
    if chunk_idx >= total_chunks as u32 {
        return Err(HashChainError::ChunkIndexOutOfRange { index: chunk_idx, max: total_chunks });
    }
    Ok(())
}

/// Fails unless the chunk count lies in `[HASHCHAIN_MIN_CHUNKS, HASHCHAIN_MAX_CHUNKS]`.
pub fn validate_chunk_count(count: u64) -> (r: HashChainResult<()>)
    ensures
        r is Ok <==> HASHCHAIN_MIN_CHUNKS <= count <= HASHCHAIN_MAX_CHUNKS,
        count > HASHCHAIN_MAX_CHUNKS ==> r == Err::<(), HashChainError>(
            HashChainError::TooManyChunks { count, max: HASHCHAIN_MAX_CHUNKS },
        ),
        count < HASHCHAIN_MIN_CHUNKS ==> r == Err::<(), HashChainError>(
            HashChainError::TooFewChunks { count, min: HASHCHAIN_MIN_CHUNKS },
        ),
{
    if count > HASHCHAIN_MAX_CHUNKS {
        return Err(HashChainError::TooManyChunks { count, max: HASHCHAIN_MAX_CHUNKS });
    }
    if count < HASHCHAIN_MIN_CHUNKS {
        return Err(HashChainError::TooFewChunks { count, min: HASHCHAIN_MIN_CHUNKS });
    }
    Ok(())
}

/// The state of the selection walk after `k` steps: the entropy, hashed `k`
/// times with BLAKE3.
pub open spec fn walk_state(entropy: Seq<u8>, k: nat) -> Seq<u8>
    decreases k,
{
    if k == 0 {
        entropy
    } else {
        blake3_spec(walk_state(entropy, (k - 1) as nat))
    }
}

/// The index proposed at step `k >= 1`: the first four bytes of the state,
/// big-endian, modulo the chunk count.
pub open spec fn walk_index(entropy: Seq<u8>, total: u32, k: nat) -> u32 {
    (from_be32(walk_state(entropy, k)) % total) as u32
}

/// The distinct indices gathered in the first `k` steps, in the order found,
/// where gathering stops once `num` are found.
pub open spec fn walk_collect(entropy: Seq<u8>, total: u32, num: nat, k: nat) -> Seq<u32>
    decreases k,
{
    if k == 0 {
        Seq::empty()
    } else {
        let prev = walk_collect(entropy, total, num, (k - 1) as nat);
        let idx = walk_index(entropy, total, k);
        if prev.len() >= num || prev.contains(idx) {
            prev
        } else {
            prev.push(idx)
        }
    }
}

/// Whether the walk gathers `num` indices within `u64::MAX` steps.
pub open spec fn walk_completes(entropy: Seq<u8>, total: u32, num: nat) -> bool {
    exists|k: nat| k <= u64::MAX && #[trigger] walk_collect(entropy, total, num, k).len() == num
}

/// The deterministic selection of `num` chunks by a BLAKE3 walk over the
/// entropy, sorted ascending: empty for `num == 0`, for no chunks, or for
/// more requested than there are; empty too if the walk does not gather
/// `num` distinct indices within `u64::MAX` steps.
pub open spec fn walk_selection(entropy: Seq<u8>, total: u32, num: u32) -> Seq<u32> {
    if num == 0 || total == 0 || num > total {
        Seq::empty()
    } else if walk_completes(entropy, total, num as nat) {
        let k = choose|k: nat| k <= u64::MAX && #[trigger] walk_collect(entropy, total, num as nat, k).len() == num;
        sorted_u32(walk_collect(entropy, total, num as nat, k))
    } else {
        Seq::empty()
    }
}

/// The gathered indices never exceed `num`; once `num` are gathered they stay.
pub proof fn lemma_walk_stable(entropy: Seq<u8>, total: u32, num: nat, k0: nat, k: nat)
    requires
        k0 <= k,
        walk_collect(entropy, total, num, k0).len() == num,
    ensures
        walk_collect(entropy, total, num, k) == walk_collect(entropy, total, num, k0),
    decreases k - k0,
{
    if k > k0 {
        lemma_walk_stable(entropy, total, num, k0, (k - 1) as nat);
    }
}

/// The walk gathers distinct indices below the chunk count, at most `num`.
pub proof fn lemma_walk_collect_valid(entropy: Seq<u8>, total: u32, num: nat, k: nat)
    requires
        total > 0,
    ensures
        distinct_u32(walk_collect(entropy, total, num, k)),
        walk_collect(entropy, total, num, k).len() <= num,
        forall|i: int| 0 <= i < walk_collect(entropy, total, num, k).len()
            ==> #[trigger] walk_collect(entropy, total, num, k)[i] < total,
    decreases k,
{
    if k > 0 {
        lemma_walk_collect_valid(entropy, total, num, (k - 1) as nat);
        let prev = walk_collect(entropy, total, num, (k - 1) as nat);
        let cur = walk_collect(entropy, total, num, k);
        if !(prev.len() >= num || prev.contains(walk_index(entropy, total, k))) {
            assert forall|i: int, j: int| 0 <= i < j < cur.len() implies cur[i] != cur[j] by {
                if j == cur.len() - 1 {
                    assert(prev.contains(cur[i]) || i >= prev.len());
                }
            }
        }
    }
}

/// Selects `num_chunks` distinct chunks by walking BLAKE3 over the entropy
/// and returns them sorted. Empty when nothing can be selected.
///
/// The chunk count is taken as a `u32`. The walk may in principle repeat
/// indices forever; after `u64::MAX` steps without completing it stops and
/// the selection is empty.
pub fn select_chunks_deterministic(entropy: &[u8], total_chunks: u32, num_chunks: u32) -> (r: Vec<u32>)
    ensures
        r@ == walk_selection(entropy@, total_chunks, num_chunks),
{
    if num_chunks == 0 || total_chunks == 0 || num_chunks > total_chunks {
        return Vec::new();
    }
    let ghost num = num_chunks as nat;
    let mut selected: Vec<u32> = Vec::new();
    let mut current = copy_bytes(entropy);
    let mut steps: u64 = 0;
    while selected.len() < num_chunks as usize && steps < u64::MAX
        invariant
            total_chunks > 0,
            num == num_chunks,
            selected@ == walk_collect(entropy@, total_chunks, num, steps as nat),
            current@ == walk_state(entropy@, steps as nat),
            forall|j: nat| j < steps ==> #[trigger] walk_collect(entropy@, total_chunks, num, j).len() < num,
        decreases u64::MAX - steps,
    {
        proof {
            lemma_walk_collect_valid(entropy@, total_chunks, num, steps as nat);
            if selected@.len() >= num {
                assert(false);
            }
        }
        let hash = compute_blake3(current.as_slice());
        let chunk_index = u32_from_be_at(hash.as_slice(), 0) % total_chunks;
        assert(hash@.subrange(0, 4) =~= hash@.subrange(0, 4));
        proof {
            assert(from_be32(hash@.subrange(0, 4)) == from_be32(walk_state(entropy@, (steps + 1) as nat)));
        }
        if !contains_u32(&selected, chunk_index) {
            selected.push(chunk_index);
        }
        current = hash;
        steps = steps + 1;
    }
    proof {
        lemma_walk_collect_valid(entropy@, total_chunks, num, steps as nat);
    }
    if selected.len() < num_chunks as usize {
        proof {
            if walk_completes(entropy@, total_chunks, num) {
                let k = choose|k: nat| k <= u64::MAX && #[trigger] walk_collect(entropy@, total_chunks, num, k).len() == num;
                lemma_walk_stable(entropy@, total_chunks, num, k, u64::MAX as nat);
            }
        }
        return Vec::new();
    }
    proof {
        assert(walk_completes(entropy@, total_chunks, num));
        let k = choose|k: nat| k <= u64::MAX && #[trigger] walk_collect(entropy@, total_chunks, num, k).len() == num;
        if k < steps {
            assert(walk_collect(entropy@, total_chunks, num, k).len() < num);
        } else {
            lemma_walk_stable(entropy@, total_chunks, num, steps as nat, k);
        }
    }
    sort_u32(&selected)
}

/// Checks a claimed selection against a re-run of the walk selection with
/// as many chunks as claimed: true exactly when they are equal, element by
/// element.
pub fn verify_chunk_selection(entropy: &[u8], total_chunks: u32, selected_chunks: &[u32]) -> (ok: bool)
    ensures
        ok == (selected_chunks@ == walk_selection(entropy@, total_chunks, selected_chunks@.len() as u32)),
{
    let num_chunks = selected_chunks.len() as u32;
    let expected = select_chunks_deterministic(entropy, total_chunks, num_chunks);
    proof {
        if walk_selection(entropy@, total_chunks, num_chunks).len() > 0 {
            let k = choose|k: nat| k <= u64::MAX && #[trigger] walk_collect(entropy@, total_chunks, num_chunks as nat, k).len() == num_chunks;
            let c = walk_collect(entropy@, total_chunks, num_chunks as nat, k);
            lemma_u32_leq_total();
            c.lemma_sort_by_ensures(u32_leq());
        }
    }
    if expected.len() != selected_chunks.len() {
        return false;
    }
    u32s_equal(selected_chunks, expected.as_slice())
}


/// The paths of a data file and its hash chain file in `output_dir`:
/// `<dir>/<stem>.data` and `<dir>/<stem>.hashchain`.
pub open spec fn output_file_paths(output_dir: Seq<char>, stem: Seq<char>) -> (Seq<char>, Seq<char>) {
    (output_dir + "/"@ + stem + ".data"@, output_dir + "/"@ + stem + ".hashchain"@)
}

/// Builds the output paths (`output_file_paths`).
pub fn create_output_file_paths(output_dir: &str, data_hash_hex: &str) -> (r: (String, String))
    ensures
        (r.0@, r.1@) == output_file_paths(output_dir@, data_hash_hex@),
{
    let mut data_file_path = output_dir.to_owned();
    data_file_path.append("/");
    data_file_path.append(data_hash_hex);
    data_file_path.append(".data");
    let mut hashchain_file_path = output_dir.to_owned();
    hashchain_file_path.append("/");
    hashchain_file_path.append(data_hash_hex);
    hashchain_file_path.append(".hashchain");
    (data_file_path, hashchain_file_path)
}


/// A proof nonce: the first 12 bytes of SHA-256 of the timestamp's 8
/// big-endian bytes followed by the extra entropy.
pub open spec fn proof_nonce_spec(timestamp_bits: u64, additional_entropy: Seq<u8>) -> Seq<u8> {
    sha256_spec(be64(timestamp_bits) + additional_entropy).subrange(0, 12)
}

/// Derives a proof nonce (`proof_nonce_spec`) from the time read by the
/// caller and extra entropy.
pub fn generate_proof_nonce(additional_entropy: &[u8], timestamp_bits: u64) -> (nonce: Vec<u8>)
    ensures
        nonce@ == proof_nonce_spec(timestamp_bits, additional_entropy@),
{
    let mut data = u64_to_be_bytes(timestamp_bits);
    append_bytes(&mut data, additional_entropy);
    let hash = sha256(data.as_slice());
    let mut nonce: Vec<u8> = Vec::new();
    let mut i: usize = 0;
    while i < 12
        invariant
            i <= 12,
            hash@.len() == 32,
            nonce@ =~= hash@.subrange(0, i as int),
        decreases 12 - i,
    {
        nonce.push(hash[i]);
        i = i + 1;
    }
    nonce
}

/// `length` deterministic bytes: a ChaCha20 stream seeded with SHA-256 of
/// the seed.
pub fn generate_deterministic_bytes(seed: &[u8], length: usize) -> (r: Vec<u8>)
    ensures
        r@ == chacha20_bytes_spec(sha256_spec(seed@), length as nat),
        r@.len() == length,
{
    let hash = sha256(seed);
    chacha20_bytes(hash.as_slice(), length)
}

/// Fresh entropy: BLAKE3 of the timestamp's 8 big-endian bytes, 32 bytes of
/// system randomness, the extra data and the process identifier (4
/// big-endian bytes). The time and the process identifier are read by the
/// caller; the system bytes are random, so only the shape of the hashed data
/// is stated.
pub fn generate_secure_entropy(additional_data: &[u8], timestamp_bits: u64, process_id: u32) -> (r: Vec<u8>)
    ensures
        exists|system: Seq<u8>|
            system.len() == 32 && r@ == blake3_spec(
                be64(timestamp_bits) + system + additional_data@ + be32(process_id),
            ),
{
    let mut sources = u64_to_be_bytes(timestamp_bits);
    let system = os_random_32();
    append_bytes(&mut sources, system.as_slice());
    append_bytes(&mut sources, additional_data);
    append_bytes(&mut sources, u32_to_be_bytes(process_id).as_slice());
    assert(sources@ =~= be64(timestamp_bits) + system@ + additional_data@ + be32(process_id));
    compute_blake3(sources.as_slice())
}

/// Entropy from several sources: Keccak-256 of the chain entropy, the beacon
/// (if any), the prover's entropy, and then fresh entropy
/// (`generate_secure_entropy`) drawn over those three.
pub fn generate_multi_source_entropy(
    blockchain_entropy: &[u8],
    beacon_entropy: Option<&[u8]>,
    prover_entropy: &[u8],
    timestamp_bits: u64,
    process_id: u32,
) -> (r: Vec<u8>)
    ensures
        ({
            let base = blockchain_entropy@ + match beacon_entropy {
                Some(b) => b@,
                None => Seq::empty(),
            } + prover_entropy@;
            exists|system: Seq<u8>|
                system.len() == 32 && r@ == keccak256_spec(
                    base + blake3_spec(be64(timestamp_bits) + system + base + be32(process_id)),
                )
        }),
{
    let mut data: Vec<u8> = Vec::new();
    append_bytes(&mut data, blockchain_entropy);
    match beacon_entropy {
        Some(b) => append_bytes(&mut data, b),
        None => {},
    }
    append_bytes(&mut data, prover_entropy);
    let ghost base = data@;
    assert(base =~= blockchain_entropy@ + match beacon_entropy {
        Some(b) => b@,
        None => Seq::empty(),
    } + prover_entropy@);
    let secure = generate_secure_entropy(data.as_slice(), timestamp_bits, process_id);
    append_bytes(&mut data, secure.as_slice());
    let r = compute_keccak256(data.as_slice());
    proof {
        let system = choose|system: Seq<u8>|
            system.len() == 32 && secure@ == blake3_spec(be64(timestamp_bits) + system + base + be32(process_id));
        assert(r@ == keccak256_spec(base + blake3_spec(be64(timestamp_bits) + system + base + be32(process_id))));
    }
    r
}

/// The parameters a commitment hash is computed from.
pub struct CommitmentParams {
    /// Prover key.
    pub prover_key: Vec<u8>,
    /// Data hash.
    pub data_hash: Vec<u8>,
    /// Block height.
    pub block_height: u64,
    /// Block hash.
    pub block_hash: Vec<u8>,
    /// Selected chunks.
    pub selected_chunks: Vec<u32>,
    /// Chunk hashes.
    pub chunk_hashes: Vec<Vec<u8>>,
    /// VDF output.
    pub vdf_output: Vec<u8>,
    /// Entropy hash.
    pub entropy_hash: Vec<u8>,
}

/// The commitment hash of parameters: BLAKE3 of the key, the data hash, the
/// height (8 bytes big-endian), the block hash, the selected chunks (4 bytes
/// big-endian each), the chunk hashes, the VDF output and the entropy hash.
pub open spec fn params_commitment_hash(p: CommitmentParams) -> Seq<u8> {
    blake3_spec(
        p.prover_key@ + p.data_hash@ + be64(p.block_height) + p.block_hash@ + be32_concat(p.selected_chunks@)
            + flatten_bytes(byte_views(p.chunk_hashes@)) + p.vdf_output@ + p.entropy_hash@,
    )
}

/// Computes `params_commitment_hash`.
pub fn compute_commitment_hash(params: &CommitmentParams) -> (h: Vec<u8>)
    ensures
        h@ == params_commitment_hash(*params),
{
    let mut data: Vec<u8> = Vec::new();
    append_bytes(&mut data, params.prover_key.as_slice());
    append_bytes(&mut data, params.data_hash.as_slice());
    append_bytes(&mut data, u64_to_be_bytes(params.block_height).as_slice());
    append_bytes(&mut data, params.block_hash.as_slice());
    append_be32_all(&mut data, &params.selected_chunks);
    append_all_bytes(&mut data, &params.chunk_hashes);
    append_bytes(&mut data, params.vdf_output.as_slice());
    append_bytes(&mut data, params.entropy_hash.as_slice());
    compute_blake3(data.as_slice())
}

/// Groups expected for a chain count (rounded up).
pub open spec fn expected_groups(chain_count: u32) -> int {
    (chain_count + CHAINS_PER_GROUP - 1) / (CHAINS_PER_GROUP as int)
}

/// Regions expected for a group count (rounded up).
pub open spec fn expected_regions(group_count: u32) -> int {
    (group_count + GROUPS_PER_REGION - 1) / (GROUPS_PER_REGION as int)
}

/// Checks the scale of a hierarchy: at most `MAX_CHAINS_PER_INSTANCE`
/// chains (else `ScaleLimit`), at most 10 groups beyond those the chains
/// need and at most 5 regions beyond those the groups need (else
/// `GroupAssignment`).
pub fn check_hierarchical_limits(chain_count: u32, group_count: u32, region_count: u32) -> (r: HashChainResult<()>)
    ensures
        chain_count > MAX_CHAINS_PER_INSTANCE ==> r == Err::<(), HashChainError>(
            HashChainError::ScaleLimit { count: chain_count, limit: MAX_CHAINS_PER_INSTANCE },
        ),
        chain_count <= MAX_CHAINS_PER_INSTANCE && group_count > expected_groups(chain_count) + 10 ==> (r matches Err(
            e,
        ) && e is GroupAssignment),
        chain_count <= MAX_CHAINS_PER_INSTANCE && group_count <= expected_groups(chain_count) + 10
            && region_count > expected_regions(group_count) + 5 ==> (r matches Err(e) && e is GroupAssignment),
        chain_count <= MAX_CHAINS_PER_INSTANCE && group_count <= expected_groups(chain_count) + 10
            && region_count <= expected_regions(group_count) + 5 ==> r is Ok,
{
    if chain_count > MAX_CHAINS_PER_INSTANCE {
        return Err(HashChainError::ScaleLimit { count: chain_count, limit: MAX_CHAINS_PER_INSTANCE });
    }
    let groups: u64 = (chain_count as u64 + CHAINS_PER_GROUP as u64 - 1) / CHAINS_PER_GROUP as u64;
    if group_count as u64 > groups + 10 {
        return Err(HashChainError::GroupAssignment { reason: String::from_str("Too many groups") });
    }
    let regions: u64 = (group_count as u64 + GROUPS_PER_REGION as u64 - 1) / GROUPS_PER_REGION as u64;
    if region_count as u64 > regions + 5 {
        return Err(HashChainError::GroupAssignment { reason: String::from_str("Too many regions") });
    }
    Ok(())
}

/// Decodes hex text (`hex_decode_spec` of its bytes); text that is not
/// valid hex is an argument error.
pub fn hex_to_bytes(hex: &str) -> (r: HashChainResult<Vec<u8>>)
    ensures
        hex_decode_spec(hex.spec_bytes()) is None ==> (r matches Err(e) && e is InvalidArgument),
        hex_decode_spec(hex.spec_bytes()) matches Some(b) ==> (r matches Ok(v) && v@ == b),
{
    match hex_decode(hex.as_bytes()) {
        Some(b) => Ok(b),
        None => Err(HashChainError::InvalidArgument { reason: String::from_str("Invalid hex") }),
    }
}

/// SHA-256 of `data`.
pub fn compute_sha256(data: &[u8]) -> (hash: Vec<u8>)
    ensures
        hash@ == sha256_spec(data@),
        hash@.len() == 32,
{
    sha256(data)
}

/// `s` with every occurrence of `pat` replaced by `rep`, scanning from the
/// front and skipping over each replaced occurrence (as `str::replace` does
/// for a non-empty pattern).
pub open spec fn replace_all(s: Seq<char>, pat: Seq<char>, rep: Seq<char>) -> Seq<char>
    decreases s.len(),
{
    if pat.len() == 0 || s.len() == 0 {
        s
    } else if s.len() >= pat.len() && s.subrange(0, pat.len() as int) == pat {
        rep + replace_all(s.skip(pat.len() as int), pat, rep)
    } else {
        seq![s[0]] + replace_all(s.skip(1), pat, rep)
    }
}

/// Whether two strings hold the same characters.
fn str_equal(a: &str, b: &str) -> (eq: bool)
    ensures
        eq == (a@ == b@),
{
    let n = a.unicode_len();
    if n != b.unicode_len() {
        return false;
    }
    let mut i: usize = 0;
    while i < n
        invariant
            i <= n,
            n == a@.len(),
            n == b@.len(),
            forall|j: int| 0 <= j < i ==> a@[j] == b@[j],
        decreases n - i,
    {
        if a.get_char(i) != b.get_char(i) {
            return false;
        }
        i = i + 1;
    }
    assert(a@ =~= b@);
    true
}

/// The data file path of a hash chain file path: every `.hashchain` in it
/// replaced by `.data`.
pub fn derive_data_file_path(hashchain_file_path: &str) -> (p: String)
    ensures
        p@ == replace_all(hashchain_file_path@, ".hashchain"@, ".data"@),
{
    proof {
        reveal_strlit(".hashchain");
    }
    let pat = ".hashchain";
    let rep = ".data";
    let plen: usize = 10;
    let s = hashchain_file_path;
    let n = s.unicode_len();
    let mut out = String::new();
    let mut i: usize = 0;
    assert(s@.skip(0) =~= s@);
    while i < n
        invariant
            i <= n,
            n == s@.len(),
            pat@.len() == plen,
            plen == 10,
            out@ + replace_all(s@.skip(i as int), pat@, rep@) == replace_all(s@, pat@, rep@),
        decreases n - i,
    {
        let ghost rest = s@.skip(i as int);
        if plen <= n - i && str_equal(s.substring_char(i, i + plen), pat) {
            assert(rest.subrange(0, plen as int) =~= s@.subrange(i as int, i + plen));
            assert(rest.skip(plen as int) =~= s@.skip(i + plen));
            out.append(rep);
            i = i + plen;
        } else {
            proof {
                if rest.len() >= plen {
                    assert(rest.subrange(0, plen as int) =~= s@.subrange(i as int, i + plen));
                }
            }
            assert(rest.skip(1) =~= s@.skip(i + 1));
            out.append(s.substring_char(i, i + 1));
            assert(s@.subrange(i as int, i + 1) =~= seq![rest[0]]);
            i = i + 1;
        }
    }
    assert(s@.skip(n as int) =~= Seq::<char>::empty());
    assert(out@ + Seq::<char>::empty() =~= out@);
    out
}

} // verus!
