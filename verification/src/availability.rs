//! Availability challenges: which chain is challenged at a block, for which
//! chunk, and how a response proves the chunk was served.
use vstd::prelude::*;
use vstd::string::StringSliceAdditionalSpecFns;

use crate::bytes::{be32, be64, from_be32, from_be64, u32_from_be_at, u32_to_be_bytes, u64_from_be_at, u64_to_be_bytes};
use crate::consts::{AVAILABILITY_RESPONSE_TIME_MS, CHUNK_SIZE_BYTES};
use crate::crypto::{bytes_to_hex, hex_encode_spec, sha256, sha256_spec};
use crate::errors::{HashChainError, HashChainResult};
use crate::seqs::{append_bytes, bytes_equal, copy_bytes};
use crate::types::{AvailabilityChallenge, AvailabilityResponse};

verus! {

/// The challenge probability, 0.1 (bit pattern of an `f64`).
pub const CHALLENGE_PROBABILITY_BITS: u64 = 0x3FB9_9999_9999_999A;

/// The challenge threshold: the challenge probability times `u64::MAX`,
/// as the `f64` product rounds it and the cast to `u64` truncates it.
pub const CHALLENGE_THRESHOLD: u64 = 1844674407370955264;

/// The reward of a successful challenge, 1.0 (bit pattern of an `f64`).
pub const REWARD_AMOUNT_BITS: u64 = 0x3FF0_0000_0000_0000;

/// The hash that decides whether a chain is challenged at a block.
pub open spec fn challenge_decision_hash(chain_id: Seq<u8>, block_height: u64) -> Seq<u8> {
    sha256_spec(chain_id + be64(block_height) + "availability_challenge".spec_bytes())
}

/// Whether a chain is challenged at a block: the first eight bytes of the
/// decision hash, big-endian, fall below the threshold.
pub open spec fn challenged_spec(chain_id: Seq<u8>, block_height: u64) -> bool {
    from_be64(challenge_decision_hash(chain_id, block_height).subrange(0, 8)) < CHALLENGE_THRESHOLD
}

/// The chunk a challenge asks for: the first four bytes of SHA-256 of the
/// chain, the height and the tag `challenge_chunk_selection`, big-endian,
/// modulo the chunk count.
pub open spec fn challenge_chunk_spec(chain_id: Seq<u8>, total_chunks: u32, block_height: u64) -> u32 {
    (from_be32(sha256_spec(chain_id + be64(block_height) + "challenge_chunk_selection".spec_bytes()).subrange(0, 4))
        % total_chunks) as u32
}

/// The nonce of a challenge: SHA-256 of the chain, the chunk index, the
/// height and the tag `challenge_nonce`.
pub open spec fn challenge_nonce_spec(chain_id: Seq<u8>, chunk_index: u32, block_height: u64) -> Seq<u8> {
    sha256_spec(chain_id + be32(chunk_index) + be64(block_height) + "challenge_nonce".spec_bytes())
}

/// The identifier bytes of a challenge: SHA-256 of the chain, the chunk
/// index, the nonce and the challenger.
pub open spec fn challenge_id_bytes(c: AvailabilityChallenge) -> Seq<u8> {
    sha256_spec(c.chain_id@ + be32(c.chunk_index) + c.challenge_nonce@ + c.challenger_id@)
}

/// The authenticity proof of a chunk for a challenge: SHA-256 of the
/// nonce, the chunk, the chain and the tag `authenticity_proof`.
pub open spec fn authenticity_proof_spec(c: AvailabilityChallenge, chunk: Seq<u8>) -> Seq<u8> {
    sha256_spec(c.challenge_nonce@ + chunk + c.chain_id@ + "authenticity_proof".spec_bytes())
}

/// Whether a response proves the chunk: a full chunk, and a proof of at
/// least 32 bytes that is the authenticity proof of that chunk for the
/// challenge.
pub open spec fn response_authentic(c: AvailabilityChallenge, r: AvailabilityResponse) -> bool {
    &&& r.chunk_data@.len() == CHUNK_SIZE_BYTES
    &&& r.authenticity_proof@.len() >= 32
    &&& r.authenticity_proof@ == authenticity_proof_spec(c, r.chunk_data@)
}

/// Whether a chain is challenged at a block (`challenged_spec`).
pub fn should_challenge_chain(chain_id: &Vec<u8>, block_height: u64) -> (b: bool)
    ensures
        b == challenged_spec(chain_id@, block_height),
{
    let mut seed: Vec<u8> = Vec::new();
    append_bytes(&mut seed, chain_id.as_slice());
    append_bytes(&mut seed, u64_to_be_bytes(block_height).as_slice());
    append_bytes(&mut seed, "availability_challenge".as_bytes());
    assert(seed@ =~= chain_id@ + be64(block_height) + "availability_challenge".spec_bytes());
    let hash = sha256(seed.as_slice());
    u64_from_be_at(hash.as_slice(), 0) < CHALLENGE_THRESHOLD
}

/// The chunk a challenge asks for (`challenge_chunk_spec`).
pub fn select_challenge_chunk(chain_id: &Vec<u8>, total_chunks: u32, block_height: u64) -> (c: u32)
    requires
        total_chunks > 0,
    ensures
        c == challenge_chunk_spec(chain_id@, total_chunks, block_height),
        c < total_chunks,
{
    let mut seed: Vec<u8> = Vec::new();
    append_bytes(&mut seed, chain_id.as_slice());
    append_bytes(&mut seed, u64_to_be_bytes(block_height).as_slice());
    append_bytes(&mut seed, "challenge_chunk_selection".as_bytes());
    assert(seed@ =~= chain_id@ + be64(block_height) + "challenge_chunk_selection".spec_bytes());
    let hash = sha256(seed.as_slice());
    u32_from_be_at(hash.as_slice(), 0) % total_chunks
}

/// The nonce of a challenge (`challenge_nonce_spec`).
pub fn generate_challenge_nonce(chain_id: &Vec<u8>, chunk_index: u32, block_height: u64) -> (n: Vec<u8>)
    ensures
        n@ == challenge_nonce_spec(chain_id@, chunk_index, block_height),
        n@.len() == 32,
{
    let mut seed: Vec<u8> = Vec::new();
    append_bytes(&mut seed, chain_id.as_slice());
    append_bytes(&mut seed, u32_to_be_bytes(chunk_index).as_slice());
    append_bytes(&mut seed, u64_to_be_bytes(block_height).as_slice());
    append_bytes(&mut seed, "challenge_nonce".as_bytes());
    assert(seed@ =~= chain_id@ + be32(chunk_index) + be64(block_height) + "challenge_nonce".spec_bytes());
    sha256(seed.as_slice())
}

/// The identifier bytes of a challenge (`challenge_id_bytes`).
pub fn challenge_id_of(challenge: &AvailabilityChallenge) -> (id: Vec<u8>)
    ensures
        id@ == challenge_id_bytes(*challenge),
        id@.len() == 32,
{
    let mut input: Vec<u8> = Vec::new();
    append_bytes(&mut input, challenge.chain_id.as_slice());
    append_bytes(&mut input, u32_to_be_bytes(challenge.chunk_index).as_slice());
    append_bytes(&mut input, challenge.challenge_nonce.as_slice());
    append_bytes(&mut input, challenge.challenger_id.as_slice());
    assert(input@ =~= challenge.chain_id@ + be32(challenge.chunk_index) + challenge.challenge_nonce@
        + challenge.challenger_id@);
    sha256(input.as_slice())
}

/// The authenticity proof of a chunk for a challenge.
pub fn generate_authenticity_proof(challenge: &AvailabilityChallenge, chunk_data: &[u8]) -> (p: Vec<u8>)
    ensures
        p@ == authenticity_proof_spec(*challenge, chunk_data@),
        p@.len() == 32,
{
    let mut input: Vec<u8> = Vec::new();
    append_bytes(&mut input, challenge.challenge_nonce.as_slice());
    append_bytes(&mut input, chunk_data);
    append_bytes(&mut input, challenge.chain_id.as_slice());
    append_bytes(&mut input, "authenticity_proof".as_bytes());
    assert(input@ =~= challenge.challenge_nonce@ + chunk_data@ + challenge.chain_id@
        + "authenticity_proof".spec_bytes());
    sha256(input.as_slice())
}

/// Whether a response proves the chunk (`response_authentic`).
pub fn verify_chunk_authenticity(challenge: &AvailabilityChallenge, response: &AvailabilityResponse) -> (ok: bool)
    ensures
        ok == response_authentic(*challenge, *response),
        ok ==> response.authenticity_proof@ == sha256_spec(
            challenge.challenge_nonce@ + response.chunk_data@ + challenge.chain_id@ + "authenticity_proof".spec_bytes(),
        ),
{
    if response.chunk_data.len() != CHUNK_SIZE_BYTES as usize {
        return false;
    }
    if response.authenticity_proof.len() < 32 {
        return false;
    }
    let expected = generate_authenticity_proof(challenge, response.chunk_data.as_slice());
    bytes_equal(response.authenticity_proof.as_slice(), expected.as_slice())
}

/// An active challenge under its identifier.
pub struct ActiveChallenge {
    /// Hex identifier of the challenge.
    pub id: String,
    /// The challenge.
    pub challenge: AvailabilityChallenge,
}

/// The outcome of a response.
pub enum AvailabilityResult {
    /// The response came in time and proves the chunk.
    Success,
    /// The response came after the deadline.
    Timeout,
    /// The response does not prove the chunk.
    InvalidData,
}

/// Counts and parameters of a challenger.
pub struct ChallengeStats {
    /// Number of active challenges (taken modulo 2^32).
    pub active_challenges: u32,
    /// Challenge probability (bit pattern of an `f64`).
    pub challenge_probability_bits: u64,
    /// Response timeout in milliseconds.
    pub response_timeout_ms: u32,
}

/// Issues availability challenges and checks the responses.
pub struct AvailabilityChallenger {
    /// Challenge probability (bit pattern of an `f64`).
    pub challenge_probability_bits: u64,
    /// Response timeout in milliseconds.
    pub response_timeout_ms: u32,
    /// The challenges awaiting a response.
    pub active_challenges: Vec<ActiveChallenge>,
}

/// The views of a list of strings.
pub open spec fn string_views(v: Seq<String>) -> Seq<Seq<char>> {
    v.map_values(|s: String| s@)
}

/// The identifiers of the first `n` challenges that are flagged expired, in
/// order.
pub open spec fn expired_ids(active: Seq<ActiveChallenge>, expired: Seq<bool>, n: nat) -> Seq<Seq<char>>
    decreases n,
{
    if n == 0 {
        Seq::empty()
    } else {
        let prev = expired_ids(active, expired, (n - 1) as nat);
        if expired[n - 1] {
            prev.push(active[n - 1].id@)
        } else {
            prev
        }
    }
}

/// The first `n` challenges that are not flagged expired, in order.
pub open spec fn unexpired(active: Seq<ActiveChallenge>, expired: Seq<bool>, n: nat) -> Seq<ActiveChallenge>
    decreases n,
{
    if n == 0 {
        Seq::empty()
    } else {
        let prev = unexpired(active, expired, (n - 1) as nat);
        if expired[n - 1] {
            prev
        } else {
            prev.push(active[n - 1])
        }
    }
}

/// The position of the first active challenge with an identifier.
pub open spec fn find_active(active: Seq<ActiveChallenge>, id: Seq<char>) -> Option<int> {
    if exists|i: int| 0 <= i < active.len() && active[i].id@ == id {
        Some(choose|i: int| 0 <= i < active.len() && active[i].id@ == id && forall|j: int| 0 <= j < i ==> active[j].id@ != id)
    } else {
        None
    }
}

/// Two challenges with the same fields.
pub open spec fn same_challenge(a: AvailabilityChallenge, b: AvailabilityChallenge) -> bool {
    &&& a.chain_id@ == b.chain_id@
    &&& a.chunk_index == b.chunk_index
    &&& a.challenge_nonce@ == b.challenge_nonce@
    &&& a.challenger_id@ == b.challenger_id@
    &&& a.challenge_time_bits == b.challenge_time_bits
    &&& a.deadline_bits == b.deadline_bits
    &&& a.reward_amount_bits == b.reward_amount_bits
}

/// The active challenges after `c` is recorded under `id`: it replaces the
/// first challenge of that identifier, or is appended.
pub open spec fn recorded_under(
    before: Seq<ActiveChallenge>,
    after: Seq<ActiveChallenge>,
    id: Seq<char>,
    c: AvailabilityChallenge,
) -> bool {
    match find_active(before, id) {
        Some(k) => {
            &&& after.len() == before.len()
            &&& after[k].id@ == id
            &&& same_challenge(after[k].challenge, c)
            &&& forall|j: int| 0 <= j < before.len() && j != k ==> #[trigger] after[j] == before[j]
        },
        None => {
            &&& after.len() == before.len() + 1
            &&& after.drop_last() == before
            &&& after.last().id@ == id
            &&& same_challenge(after.last().challenge, c)
        },
    }
}

/// The active challenges after `c` is recorded under its hex identifier.
pub open spec fn challenge_recorded(
    before: Seq<ActiveChallenge>,
    after: Seq<ActiveChallenge>,
    c: AvailabilityChallenge,
) -> bool {
    recorded_under(before, after, hex_encode_spec(challenge_id_bytes(c)), c)
}

impl AvailabilityChallenger {
    /// A challenger with the standard probability and timeout and no
    /// challenge.
    pub fn new() -> (c: AvailabilityChallenger)
        ensures
            c.active_challenges@.len() == 0,
            c.challenge_probability_bits == CHALLENGE_PROBABILITY_BITS,
            c.response_timeout_ms == AVAILABILITY_RESPONSE_TIME_MS,
    {
        AvailabilityChallenger {
            challenge_probability_bits: CHALLENGE_PROBABILITY_BITS,
            response_timeout_ms: AVAILABILITY_RESPONSE_TIME_MS,
            active_challenges: Vec::new(),
        }
    }

    /// The response timeout in milliseconds.
    pub fn response_timeout_ms(&self) -> (t: u32)
        ensures
            t == self.response_timeout_ms,
    {
        self.response_timeout_ms
    }

    /// Creates the challenge of a chain at a block, if the chain is
    /// challenged (`challenged_spec`): the chunk `challenge_chunk_spec`, its
    /// nonce, the given challenger, times and reward. The challenge becomes
    /// active under its hex identifier (replacing one of the same
    /// identifier). A chain that is not challenged gives `None` and changes
    /// nothing.
    pub fn create_challenge(
        &mut self,
        chain_id: Vec<u8>,
        total_chunks: u32,
        challenger_id: Vec<u8>,
        block_height: u64,
        challenge_time_bits: u64,
        deadline_bits: u64,
    ) -> (r: HashChainResult<Option<AvailabilityChallenge>>)
        requires
            total_chunks > 0,
        ensures
            !challenged_spec(chain_id@, block_height) ==> (r matches Ok(None)) && *final(self) == *old(self),
            challenged_spec(chain_id@, block_height) ==> (r matches Ok(Some(c)) && {
                &&& c.chain_id@ == chain_id@
                &&& c.chunk_index == challenge_chunk_spec(chain_id@, total_chunks, block_height)
                &&& c.challenge_nonce@ == challenge_nonce_spec(chain_id@, c.chunk_index, block_height)
                &&& c.challenge_nonce@.len() == 32
                &&& c.chunk_index < total_chunks
                &&& c.challenger_id@ == challenger_id@
                &&& c.challenge_time_bits == challenge_time_bits
                &&& c.deadline_bits == deadline_bits
                &&& c.reward_amount_bits == REWARD_AMOUNT_BITS
                &&& challenge_recorded(old(self).active_challenges@, final(self).active_challenges@, c)
            }),
            final(self).challenge_probability_bits == old(self).challenge_probability_bits,
            final(self).response_timeout_ms == old(self).response_timeout_ms,
    {
        if !should_challenge_chain(&chain_id, block_height) {
            return Ok(None);
        }
        let chunk_index = select_challenge_chunk(&chain_id, total_chunks, block_height);
        let challenge_nonce = generate_challenge_nonce(&chain_id, chunk_index, block_height);
        let challenge = AvailabilityChallenge {
            chain_id,
            chunk_index,
            challenge_nonce,
            challenger_id,
            challenge_time_bits,
            deadline_bits,
            reward_amount_bits: REWARD_AMOUNT_BITS,
        };
        let id_bytes = challenge_id_of(&challenge);
        let id = bytes_to_hex(id_bytes.as_slice());
        let stored = copy_challenge(&challenge);
        let found = self.find_challenge(&id);
        let entry = ActiveChallenge { id, challenge: stored };
        let ghost entry_id = entry.id@;
        let ghost entry_view = entry;
        let ghost before = self.active_challenges@;
        if let Some(k) = found {
            let _old = self.active_challenges.remove(k);
            self.active_challenges.insert(k, entry);
            assert(self.active_challenges@ =~= before.update(k as int, entry_view));
        } else {
            self.active_challenges.push(entry);
            assert(self.active_challenges@.drop_last() =~= before);
        }
        Ok(Some(challenge))
    }

    /// Handles the response to an active challenge: a response after the
    /// deadline (as the caller's clock decides) is a `Timeout`, one that does
    /// not prove the chunk is `InvalidData`, otherwise `Success`; in every
    /// case the challenge is no longer active. An unknown identifier is an
    /// error and changes nothing.
    pub fn process_response(&mut self, challenge_id: &String, response: &AvailabilityResponse, timed_out: bool) -> (r:
        HashChainResult<AvailabilityResult>)
        ensures
            find_active(old(self).active_challenges@, challenge_id@) is None ==> (r matches Err(e)
                && e is GenericFailure) && *final(self) == *old(self),
            find_active(old(self).active_challenges@, challenge_id@) matches Some(i) ==> {
                let c = old(self).active_challenges@[i].challenge;
                &&& final(self).active_challenges@ == old(self).active_challenges@.remove(i)
                &&& timed_out ==> (r matches Ok(AvailabilityResult::Timeout))
                &&& !timed_out && !response_authentic(c, *response) ==> (r matches Ok(AvailabilityResult::InvalidData))
                &&& !timed_out && response_authentic(c, *response) ==> (r matches Ok(AvailabilityResult::Success))
                &&& !timed_out && response.authenticity_proof@ != sha256_spec(
                    c.challenge_nonce@ + response.chunk_data@ + c.chain_id@ + "authenticity_proof".spec_bytes(),
                ) ==> (r matches Ok(AvailabilityResult::InvalidData))
            },
    {
        match self.find_challenge(challenge_id) {
            None => Err(HashChainError::GenericFailure { reason: String::from_str("Challenge not found") }),
            Some(k) => {
                let entry = self.active_challenges.remove(k);
                if timed_out {
                    return Ok(AvailabilityResult::Timeout);
                }
                if !verify_chunk_authenticity(&entry.challenge, response) {
                    return Ok(AvailabilityResult::InvalidData);
                }
                Ok(AvailabilityResult::Success)
            },
        }
    }

    /// The position of the first active challenge with an identifier
    /// (`find_active`).
    fn find_challenge(&self, challenge_id: &String) -> (r: Option<usize>)
        ensures
            match r {
                Some(k) => find_active(self.active_challenges@, challenge_id@) == Some(k as int) && k
                    < self.active_challenges@.len(),
                None => find_active(self.active_challenges@, challenge_id@) is None,
            },
    {
        let mut k: usize = 0;
        while k < self.active_challenges.len()
            invariant
                k <= self.active_challenges@.len(),
                forall|j: int| 0 <= j < k ==> #[trigger] self.active_challenges@[j].id@ != challenge_id@,
            decreases self.active_challenges@.len() - k,
        {
            if self.active_challenges[k].id == *challenge_id {
                proof {
                    let ki = k as int;
                    assert(0 <= ki < self.active_challenges@.len() && self.active_challenges@[ki].id@ == challenge_id@);
                    let c = choose|i: int|
                        0 <= i < self.active_challenges@.len() && self.active_challenges@[i].id@ == challenge_id@
                            && forall|j: int| 0 <= j < i ==> self.active_challenges@[j].id@ != challenge_id@;
                    if c < ki {
                        assert(self.active_challenges@[c].id@ != challenge_id@);
                    }
                    if c > ki {
                        assert(self.active_challenges@[ki].id@ != challenge_id@);
                    }
                }
                return Some(k);
            }
            k = k + 1;
        }
        None
    }

    /// Removes the challenges the caller's clock finds expired (`expired[i]`
    /// for challenge `i`) and returns their identifiers, in order; the other
    /// challenges stay, in order.
    pub fn cleanup_expired_challenges(&mut self, expired: &Vec<bool>) -> (r: HashChainResult<Vec<String>>)
        requires
            expired@.len() == old(self).active_challenges@.len(),
        ensures
            r matches Ok(ids) && string_views(ids@) == expired_ids(
                old(self).active_challenges@,
                expired@,
                expired@.len(),
            ),
            final(self).active_challenges@ == unexpired(old(self).active_challenges@, expired@, expired@.len()),
            final(self).challenge_probability_bits == old(self).challenge_probability_bits,
            final(self).response_timeout_ms == old(self).response_timeout_ms,
    {
        let ghost start = self.active_challenges@;
        let mut kept: Vec<ActiveChallenge> = Vec::new();
        let mut removed: Vec<String> = Vec::new();
        let n = self.active_challenges.len();
        let mut i: usize = 0;
        while i < n
            invariant
                i <= n,
                n == start.len(),
                expired@.len() == n,
                self.active_challenges@ == start.subrange(i as int, n as int),
                kept@ == unexpired(start, expired@, i as nat),
                string_views(removed@) == expired_ids(start, expired@, i as nat),
                self.challenge_probability_bits == old(self).challenge_probability_bits,
                self.response_timeout_ms == old(self).response_timeout_ms,
            decreases n - i,
        {
            let entry = self.active_challenges.remove(0);
            assert(entry == start[i as int]);
            assert(self.active_challenges@ =~= start.subrange(i + 1, n as int));
            if expired[i] {
                let ghost before = removed@;
                removed.push(entry.id);
                assert(string_views(removed@) =~= string_views(before).push(start[i as int].id@));
            } else {
                kept.push(entry);
            }
            i = i + 1;
        }
        self.active_challenges = kept;
        Ok(removed)
    }

    /// The challenge statistics.
    pub fn get_challenge_stats(&self) -> (s: ChallengeStats)
        ensures
            s.active_challenges == self.active_challenges@.len() as u32,
            s.challenge_probability_bits == self.challenge_probability_bits,
            s.response_timeout_ms == self.response_timeout_ms,
    {
        ChallengeStats {
            active_challenges: self.active_challenges.len() as u32,
            challenge_probability_bits: self.challenge_probability_bits,
            response_timeout_ms: self.response_timeout_ms,
        }
    }
}

/// A copy of a challenge.
pub fn copy_challenge(c: &AvailabilityChallenge) -> (r: AvailabilityChallenge)
    ensures
        r.chain_id@ == c.chain_id@,
        r.chunk_index == c.chunk_index,
        r.challenge_nonce@ == c.challenge_nonce@,
        r.challenger_id@ == c.challenger_id@,
        r.challenge_time_bits == c.challenge_time_bits,
        r.deadline_bits == c.deadline_bits,
        r.reward_amount_bits == c.reward_amount_bits,
{
    AvailabilityChallenge {
        chain_id: copy_bytes(c.chain_id.as_slice()),
        chunk_index: c.chunk_index,
        challenge_nonce: copy_bytes(c.challenge_nonce.as_slice()),
        challenger_id: copy_bytes(c.challenger_id.as_slice()),
        challenge_time_bits: c.challenge_time_bits,
        deadline_bits: c.deadline_bits,
        reward_amount_bits: c.reward_amount_bits,
    }
}

/// A chain registered for answering challenges.
pub struct ChainAvailabilityData {
    /// Hex identifier of the chain.
    pub chain_id: String,
    /// Path of its data file.
    pub file_path: String,
    /// Its chunk count.
    pub total_chunks: u32,
}

/// Answers availability challenges for registered chains.
pub struct AvailabilityProver {
    /// The registered chains.
    pub chain_data: Vec<ChainAvailabilityData>,
}

/// The chunk count of a registered chain (first registration of the
/// identifier).
pub open spec fn registered_chunks(data: Seq<ChainAvailabilityData>, chain_id: Seq<char>) -> Option<u32>
    decreases data.len(),
{
    if data.len() == 0 {
        None
    } else if data[0].chain_id@ == chain_id {
        Some(data[0].total_chunks)
    } else {
        registered_chunks(data.drop_first(), chain_id)
    }
}

impl AvailabilityProver {
    /// No chain registered.
    pub fn new() -> (p: AvailabilityProver)
        ensures
            p.chain_data@.len() == 0,
    {
        AvailabilityProver { chain_data: Vec::new() }
    }

    /// Registers a chain, replacing an earlier registration of it.
    pub fn register_chain(&mut self, chain_id: String, file_path: String, total_chunks: u32)
        ensures
            registered_chunks(final(self).chain_data@, chain_id@) == Some(total_chunks),
            forall|other: Seq<char>|
                other != chain_id@ ==> #[trigger] registered_chunks(final(self).chain_data@, other)
                    == registered_chunks(old(self).chain_data@, other),
    {
        let mut k: usize = 0;
        assert(self.chain_data@.subrange(0, self.chain_data@.len() as int) =~= self.chain_data@);
        while k < self.chain_data.len()
            invariant
                k <= self.chain_data@.len(),
                self.chain_data@ == old(self).chain_data@,
                registered_chunks(self.chain_data@, chain_id@) == registered_chunks(
                    self.chain_data@.subrange(k as int, self.chain_data@.len() as int),
                    chain_id@,
                ),
                forall|j: int| 0 <= j < k ==> #[trigger] self.chain_data@[j].chain_id@ != chain_id@,
            decreases self.chain_data@.len() - k,
        {
            let ghost rest = self.chain_data@.subrange(k as int, self.chain_data@.len() as int);
            assert(rest.drop_first() =~= self.chain_data@.subrange(k + 1, self.chain_data@.len() as int));
            if self.chain_data[k].chain_id == chain_id {
                let ghost before = self.chain_data@;
                let _old = self.chain_data.remove(k);
                self.chain_data.insert(k, ChainAvailabilityData { chain_id, file_path, total_chunks });
                proof {
                    lemma_registered_update(before, k as nat, self.chain_data@);
                    assert forall|other: Seq<char>| other != chain_id@ implies #[trigger] registered_chunks(
                        self.chain_data@,
                        other,
                    ) == registered_chunks(before, other) by {
                        lemma_registered_update_other(before, k as nat, self.chain_data@, other);
                    }
                }
                return;
            }
            k = k + 1;
        }
        let ghost before = self.chain_data@;
        assert(self.chain_data@.subrange(k as int, self.chain_data@.len() as int) =~= Seq::<ChainAvailabilityData>::empty());
        self.chain_data.push(ChainAvailabilityData { chain_id, file_path, total_chunks });
        proof {
            lemma_registered_push(before, self.chain_data@);
            assert forall|other: Seq<char>| other != chain_id@ implies #[trigger] registered_chunks(
                self.chain_data@,
                other,
            ) == registered_chunks(before, other) by {
                lemma_registered_push_other(before, self.chain_data@, other);
            }
        }
    }

    /// The chunk count of a registered chain.
    pub fn get_total_chunks(&self, chain_id: &String) -> (r: Option<u32>)
        ensures
            r == registered_chunks(self.chain_data@, chain_id@),
    {
        let mut k: usize = 0;
        assert(self.chain_data@.subrange(0, self.chain_data@.len() as int) =~= self.chain_data@);
        while k < self.chain_data.len()
            invariant
                k <= self.chain_data@.len(),
                registered_chunks(self.chain_data@, chain_id@) == registered_chunks(
                    self.chain_data@.subrange(k as int, self.chain_data@.len() as int),
                    chain_id@,
                ),
            decreases self.chain_data@.len() - k,
        {
            let ghost rest = self.chain_data@.subrange(k as int, self.chain_data@.len() as int);
            assert(rest.drop_first() =~= self.chain_data@.subrange(k + 1, self.chain_data@.len() as int));
            if self.chain_data[k].chain_id == *chain_id {
                return Some(self.chain_data[k].total_chunks);
            }
            k = k + 1;
        }
        None
    }

    /// Whether a chunk index lies within a registered chain.
    pub fn validate_chunk_index(&self, chain_id: &String, chunk_index: u32) -> (ok: bool)
        ensures
            ok == (registered_chunks(self.chain_data@, chain_id@) matches Some(n) && chunk_index < n),
    {
        match self.get_total_chunks(chain_id) {
            Some(n) => chunk_index < n,
            None => false,
        }
    }

    /// Whether a challenge's chunk lies within a registered chain.
    pub fn validate_challenge_bounds(&self, chain_id: &String, challenge: &AvailabilityChallenge) -> (ok: bool)
        ensures
            ok == (registered_chunks(self.chain_data@, chain_id@) matches Some(n) && challenge.chunk_index < n),
    {
        self.validate_chunk_index(chain_id, challenge.chunk_index)
    }

    /// Whether a chunk range lies within a registered chain.
    pub fn validate_chunk_range(&self, chain_id: &String, start_chunk: u32, end_chunk: u32) -> (ok: bool)
        ensures
            ok == (registered_chunks(self.chain_data@, chain_id@) matches Some(n) && start_chunk <= end_chunk
                && end_chunk < n && start_chunk < n),
    {
        match self.get_total_chunks(chain_id) {
            Some(n) => start_chunk <= end_chunk && end_chunk < n && start_chunk < n,
            None => false,
        }
    }

    /// Answers a challenge to a registered chain (looked up by the hex of
    /// the challenged chain's identifier) with the chunk the caller read from
    /// the chain's file (`build_response`); an unregistered chain is a
    /// failure.
    pub fn respond_to_challenge(&self, challenge: &AvailabilityChallenge, chunk_data: Vec<u8>, response_time_bits: u64) -> (r:
        HashChainResult<AvailabilityResponse>)
        ensures
            registered_chunks(self.chain_data@, hex_encode_spec(challenge.chain_id@)) is None ==> (r matches Err(e)
                && e is GenericFailure),
            registered_chunks(self.chain_data@, hex_encode_spec(challenge.chain_id@)) is Some ==> (r matches Ok(resp)
                && {
                &&& resp.challenge_id@ == challenge_id_bytes(*challenge)
                &&& resp.chunk_data@ == chunk_data@
                &&& resp.response_time_bits == response_time_bits
                &&& resp.authenticity_proof@ == authenticity_proof_spec(*challenge, chunk_data@)
                &&& resp.authenticity_proof@.len() == 32
            }),
    {
        let chain_id = bytes_to_hex(challenge.chain_id.as_slice());
        match self.get_total_chunks(&chain_id) {
            Some(_) => {},
            None => {
                return Err(HashChainError::GenericFailure { reason: String::from_str("Chain not found") });
            },
        }
        self.build_response(challenge, chunk_data, response_time_bits)
    }

    /// The response to a challenge once its chunk has been read: the
    /// challenge identifier bytes, the chunk, the response time and the
    /// authenticity proof.
    pub fn build_response(&self, challenge: &AvailabilityChallenge, chunk_data: Vec<u8>, response_time_bits: u64) -> (r:
        HashChainResult<AvailabilityResponse>)
        ensures
            r matches Ok(resp) && {
                &&& resp.challenge_id@ == challenge_id_bytes(*challenge)
                &&& resp.chunk_data@ == chunk_data@
                &&& resp.response_time_bits == response_time_bits
                &&& resp.authenticity_proof@ == authenticity_proof_spec(*challenge, chunk_data@)
                &&& resp.authenticity_proof@.len() == 32
            },
    {
        let authenticity_proof = generate_authenticity_proof(challenge, chunk_data.as_slice());
        let challenge_id = challenge_id_of(challenge);
        Ok(AvailabilityResponse { challenge_id, chunk_data, response_time_bits, authenticity_proof })
    }
}

/// Replacing a registration with the same identifier keeps the lookup on the
/// new one.
proof fn lemma_registered_update(before: Seq<ChainAvailabilityData>, k: nat, after: Seq<ChainAvailabilityData>)
    requires
        k < before.len(),
        after.len() == before.len(),
        forall|j: int| 0 <= j < before.len() && j != k ==> #[trigger] after[j] == before[j],
        after[k as int].chain_id@ == before[k as int].chain_id@,
        forall|j: int| 0 <= j < k ==> #[trigger] before[j].chain_id@ != before[k as int].chain_id@,
    ensures
        registered_chunks(after, before[k as int].chain_id@) == Some(after[k as int].total_chunks),
    decreases k,
{
    if k > 0 {
        assert(before[0].chain_id@ != before[k as int].chain_id@);
        lemma_registered_update(before.drop_first(), (k - 1) as nat, after.drop_first());
    }
}

/// Appending a registration of a new identifier makes the lookup find it.
proof fn lemma_registered_push(before: Seq<ChainAvailabilityData>, after: Seq<ChainAvailabilityData>)
    requires
        after.len() == before.len() + 1,
        forall|j: int| 0 <= j < before.len() ==> #[trigger] after[j] == before[j],
        registered_chunks(before, after.last().chain_id@) is None,
    ensures
        registered_chunks(after, after.last().chain_id@) == Some(after.last().total_chunks),
    decreases before.len(),
{
    if before.len() > 0 {
        lemma_registered_push(before.drop_first(), after.drop_first());
    }
}

/// Replacing the registration at `k` by one with the same identifier leaves
/// the lookup of every other identifier unchanged.
proof fn lemma_registered_update_other(
    before: Seq<ChainAvailabilityData>,
    k: nat,
    after: Seq<ChainAvailabilityData>,
    other: Seq<char>,
)
    requires
        k < before.len(),
        after.len() == before.len(),
        forall|j: int| 0 <= j < before.len() && j != k ==> #[trigger] after[j] == before[j],
        after[k as int].chain_id@ == before[k as int].chain_id@,
        other != before[k as int].chain_id@,
    ensures
        registered_chunks(after, other) == registered_chunks(before, other),
    decreases k,
{
    if k == 0 {
        assert(after.drop_first() =~= before.drop_first());
    } else if before[0].chain_id@ != other {
        lemma_registered_update_other(before.drop_first(), (k - 1) as nat, after.drop_first(), other);
    }
}

/// Appending a registration leaves the lookup of every other identifier
/// unchanged.
proof fn lemma_registered_push_other(
    before: Seq<ChainAvailabilityData>,
    after: Seq<ChainAvailabilityData>,
    other: Seq<char>,
)
    requires
        after.len() == before.len() + 1,
        forall|j: int| 0 <= j < before.len() ==> #[trigger] after[j] == before[j],
        other != after.last().chain_id@,
    ensures
        registered_chunks(after, other) == registered_chunks(before, other),
    decreases before.len(),
{
    if before.len() == 0 {
        assert(after.drop_first().len() == 0);
    } else if before[0].chain_id@ != other {
        lemma_registered_push_other(before.drop_first(), after.drop_first(), other);
    }
}

/// Where some position holds an identifier, a first one does, and
/// `find_active` gives it.
proof fn lemma_find_active_some(active: Seq<ActiveChallenge>, id: Seq<char>, i: int)
    requires
        0 <= i < active.len(),
        active[i].id@ == id,
    ensures
        find_active(active, id) matches Some(k) && 0 <= k < active.len() && active[k].id@ == id && forall|j: int|
            0 <= j < k ==> #[trigger] active[j].id@ != id,
    decreases i,
{
    if exists|j: int| 0 <= j < i && active[j].id@ == id {
        let j = choose|j: int| 0 <= j < i && active[j].id@ == id;
        lemma_find_active_some(active, id, j);
    } else {
        assert forall|j: int| 0 <= j < i implies #[trigger] active[j].id@ != id by {}
        lemma_find_active_first(active, id, i);
    }
}

/// The first position holding an identifier is the one `find_active` gives.
proof fn lemma_find_active_first(active: Seq<ActiveChallenge>, id: Seq<char>, k: int)
    requires
        0 <= k < active.len(),
        active[k].id@ == id,
        forall|j: int| 0 <= j < k ==> #[trigger] active[j].id@ != id,
    ensures
        find_active(active, id) == Some(k),
{
    assert(exists|i: int| 0 <= i < active.len() && active[i].id@ == id);
    let chosen = choose|i: int|
        0 <= i < active.len() && active[i].id@ == id && forall|j: int| 0 <= j < i ==> active[j].id@ != id;
    assert(0 <= k < active.len() && active[k].id@ == id && forall|j: int| 0 <= j < k ==> active[j].id@ != id);
    if chosen < k {
        assert(active[chosen].id@ != id);
    }
    if k < chosen {
        assert(active[k].id@ != id);
    }
}

/// A challenge recorded under an identifier is found under it.
proof fn lemma_recorded_under_is_active(
    before: Seq<ActiveChallenge>,
    after: Seq<ActiveChallenge>,
    id: Seq<char>,
    c: AvailabilityChallenge,
)
    requires
        recorded_under(before, after, id, c),
    ensures
        find_active(after, id) matches Some(k) && 0 <= k < after.len() && same_challenge(after[k].challenge, c),
{
    match find_active(before, id) {
        Some(k) => {
            assert(exists|i: int| 0 <= i < before.len() && before[i].id@ == id);
            let w = choose|i: int| 0 <= i < before.len() && before[i].id@ == id;
            lemma_find_active_some(before, id, w);
            assert forall|j: int| 0 <= j < k implies #[trigger] after[j].id@ != id by {
                assert(after[j] == before[j]);
                assert(before[j].id@ != id);
            }
            lemma_find_active_first(after, id, k);
        },
        None => {
            let k = before.len() as int;
            assert forall|j: int| 0 <= j < k implies #[trigger] after[j].id@ != id by {
                assert(after[j] == after.drop_last()[j]);
                if before[j].id@ == id {
                    assert(exists|i: int| 0 <= i < before.len() && before[i].id@ == id);
                }
            }
            lemma_find_active_first(after, id, k);
        },
    }
}

/// A challenge just recorded is active: looking its hex identifier up finds
/// an entry holding that challenge, so a response to it is processed.
pub proof fn lemma_recorded_challenge_is_active(
    before: Seq<ActiveChallenge>,
    after: Seq<ActiveChallenge>,
    c: AvailabilityChallenge,
)
    requires
        challenge_recorded(before, after, c),
    ensures
        find_active(after, hex_encode_spec(challenge_id_bytes(c))) matches Some(k) && 0 <= k < after.len()
            && same_challenge(after[k].challenge, c),
{
    lemma_recorded_under_is_active(before, after, hex_encode_spec(challenge_id_bytes(c)), c);
}

/// A response that the prover builds for a challenge from the full chunk
/// passes the challenger's authenticity check.
pub proof fn lemma_built_response_authentic(c: AvailabilityChallenge, chunk: Seq<u8>, r: AvailabilityResponse)
    requires
        chunk.len() == CHUNK_SIZE_BYTES,
        r.chunk_data@ == chunk,
        r.authenticity_proof@ == authenticity_proof_spec(c, chunk),
        r.authenticity_proof@.len() == 32,
    ensures
        response_authentic(c, r),
{
}

/// A response is judged authentic only if it holds a full chunk and its
/// proof is SHA-256 of the challenge nonce, the chunk, the chain identifier
/// and the tag `authenticity_proof`: any other proof, however long, is
/// refused, so `process_response` answers `InvalidData` for it.
pub proof fn lemma_authentic_response_proves_chunk(c: AvailabilityChallenge, r: AvailabilityResponse)
    requires
        response_authentic(c, r),
    ensures
        r.chunk_data@.len() == CHUNK_SIZE_BYTES,
        r.authenticity_proof@ == sha256_spec(
            c.challenge_nonce@ + r.chunk_data@ + c.chain_id@ + "authenticity_proof".spec_bytes(),
        ),
{
}

/// Two responses to one challenge that are both judged authentic for the
/// same chunk carry the same proof: the proof is fixed by the challenge and
/// the chunk.
pub proof fn lemma_authentic_proof_unique(c: AvailabilityChallenge, r1: AvailabilityResponse, r2: AvailabilityResponse)
    requires
        response_authentic(c, r1),
        response_authentic(c, r2),
        r1.chunk_data@ == r2.chunk_data@,
    ensures
        r1.authenticity_proof@ == r2.authenticity_proof@,
{
}

} // verus!
