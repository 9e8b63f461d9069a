//! The hierarchical global proof of one block: chains are cut into groups,
//! groups into regions, and each level is proved over the Merkle root of the
//! level below; the global root also covers the previous global proof.
use vstd::prelude::*;

use crate::bytes::{be32, u32_to_be_bytes};
use crate::consts::{CHAINS_PER_GROUP, GLOBAL_ROOT_ITERATIONS, GROUPS_PER_REGION, GROUP_ITERATIONS, REGIONAL_ITERATIONS};
use crate::crypto::{sha256, sha256_spec};
use crate::errors::{HashChainError, HashChainResult};
use crate::groups::{commitments_long_enough, group_proof_spec, new_group_id, table_ids_distinct, ChainCommitment, NamedProof};
use crate::header::{zero_hash, zero_hash_bytes};
use crate::ids::format_zero_padded;
use crate::merkle::{
    compute_level_proof, compute_merkle_root, iterate_sha, iterate_sha256, leaves_long_enough, merkle_root_of,
};
use crate::regions::{new_region_id, proofs_long_enough, regional_proof_spec};
use crate::ordering::{canonical_entries, entry_views, lemma_canonical_order_independent, sort_entries};
use crate::seqs::{append_bytes, byte_views, copy_bytes};

verus! {

/// The batch size actually used: a maximum of zero puts every item in a
/// batch of its own.
pub open spec fn batch_size(max: u32) -> nat {
    if max == 0 {
        1
    } else {
        max as nat
    }
}

/// The number of batches of at most `m` items that `n` items fill.
pub open spec fn batch_count(n: nat, m: nat) -> nat {
    if m == 0 {
        0
    } else {
        ((n + m - 1) / (m as int)) as nat
    }
}

/// Batch `k` of `s` cut into consecutive batches of `m` items.
pub open spec fn batch<T>(s: Seq<T>, m: nat, k: int) -> Seq<T> {
    let start = k * m;
    let end = if (k + 1) * m < s.len() {
        (k + 1) * m
    } else {
        s.len() as int
    };
    s.subrange(start, end)
}

/// The commitments of a list of chains.
pub open spec fn commitment_views(s: Seq<ChainCommitment>) -> Seq<Seq<u8>> {
    s.map_values(|e: ChainCommitment| e.commitment@)
}

/// The proofs of a list of named proofs.
pub open spec fn proof_views(s: Seq<NamedProof>) -> Seq<Seq<u8>> {
    s.map_values(|e: NamedProof| e.proof@)
}

/// Chains sorted into one group.
pub struct ChainBatch {
    /// Group identifier.
    pub group_id: String,
    /// The chains of the group with their commitments.
    pub chains: Vec<ChainCommitment>,
}

/// Groups sorted into one region.
pub struct GroupBatch {
    /// Region identifier.
    pub region_id: String,
    /// The groups of the region with their proofs.
    pub groups: Vec<NamedProof>,
}

/// The outcome of the hierarchical proof of a block.
pub struct HierarchicalProofResult {
    /// The global root proof.
    pub global_root_proof: Vec<u8>,
    /// The proof of each group, in group order.
    pub group_proofs: Vec<NamedProof>,
    /// The proof of each region, in region order.
    pub regional_proofs: Vec<NamedProof>,
}

/// The global root proof over the regional proofs: 32 zero bytes for no
/// region, else SHA-256 of the block hash, their Merkle root, the previous
/// global proof and their number (big-endian 32-bit), hashed
/// `GLOBAL_ROOT_ITERATIONS` more times.
pub open spec fn global_root_spec(regional: Seq<Seq<u8>>, block_hash: Seq<u8>, previous: Seq<u8>) -> Seq<u8> {
    if regional.len() == 0 {
        zero_hash()
    } else {
        iterate_sha(
            sha256_spec(block_hash + merkle_root_of(regional) + previous + be32(regional.len() as u32)),
            GLOBAL_ROOT_ITERATIONS as nat,
        )
    }
}

/// The group proofs of a block: group `k` (named `new_group_id(k)`) holds
/// batch `k` of the chains.
pub open spec fn group_level_spec(chains: Seq<ChainCommitment>, m: nat, block_hash: Seq<u8>) -> Seq<(Seq<char>, Seq<u8>)> {
    Seq::new(
        batch_count(chains.len(), m),
        |k: int|
            (
                new_group_id(k as u32),
                group_proof_spec(new_group_id(k as u32), commitment_views(batch(chains, m, k)), block_hash),
            ),
    )
}

/// The regional proofs of a block: region `k` (named `new_region_id(k)`)
/// holds batch `k` of the group proofs.
pub open spec fn region_level_spec(groups: Seq<(Seq<char>, Seq<u8>)>, m: nat, block_hash: Seq<u8>) -> Seq<(Seq<char>, Seq<u8>)> {
    Seq::new(
        batch_count(groups.len(), m),
        |k: int|
            (
                new_region_id(k as u32),
                regional_proof_spec(
                    new_region_id(k as u32),
                    batch(groups, m, k).map_values(|p: (Seq<char>, Seq<u8>)| p.1),
                    block_hash,
                ),
            ),
    )
}

/// The group proofs of a block over entries (chain identifier, commitment)
/// in the given order: group `k` (named `new_group_id(k)`) holds batch `k`.
pub open spec fn group_level_of_entries(entries: Seq<(Seq<u8>, Seq<u8>)>, m: nat, block_hash: Seq<u8>) -> Seq<
    (Seq<char>, Seq<u8>),
> {
    Seq::new(
        batch_count(entries.len(), m),
        |k: int|
            (
                new_group_id(k as u32),
                group_proof_spec(
                    new_group_id(k as u32),
                    batch(entries, m, k).map_values(|e: (Seq<u8>, Seq<u8>)| e.1),
                    block_hash,
                ),
            ),
    )
}

/// The global root proof of a block over the given entries taken in
/// canonical order: groups of `mg` entries, regions of `mr` groups.
pub open spec fn hierarchical_root_spec(
    entries: Seq<(Seq<u8>, Seq<u8>)>,
    mg: nat,
    mr: nat,
    block_hash: Seq<u8>,
    previous: Seq<u8>,
) -> Seq<u8> {
    let groups = group_level_of_entries(canonical_entries(entries), mg, block_hash);
    let regions = region_level_spec(groups, mr, block_hash);
    global_root_spec(regions.map_values(|p: (Seq<char>, Seq<u8>)| p.1), block_hash, previous)
}

/// The hierarchical proof does not depend on the order of its input: two
/// lists holding the same entries in any order give the same group proofs
/// and the same global root.
pub proof fn lemma_hierarchical_root_order_independent(
    a: Seq<ChainCommitment>,
    b: Seq<ChainCommitment>,
    mg: nat,
    mr: nat,
    block_hash: Seq<u8>,
    previous: Seq<u8>,
)
    requires
        entry_views(a).to_multiset() == entry_views(b).to_multiset(),
    ensures
        group_level_of_entries(canonical_entries(entry_views(a)), mg, block_hash) == group_level_of_entries(
            canonical_entries(entry_views(b)),
            mg,
            block_hash,
        ),
        hierarchical_root_spec(entry_views(a), mg, mr, block_hash, previous) == hierarchical_root_spec(
            entry_views(b),
            mg,
            mr,
            block_hash,
            previous,
        ),
{
    lemma_canonical_order_independent(entry_views(a), entry_views(b));
}

/// Cutting chains into groups gives the same proofs whether read from the
/// chains or from their entry views.
proof fn lemma_group_level_of_views(chains: Seq<ChainCommitment>, m: nat, block_hash: Seq<u8>)
    requires
        m >= 1,
    ensures
        group_level_spec(chains, m, block_hash) == group_level_of_entries(entry_views(chains), m, block_hash),
{
    let views = entry_views(chains);
    assert forall|k: int| 0 <= k < batch_count(chains.len(), m) implies #[trigger] commitment_views(batch(chains, m, k))
        == batch(views, m, k).map_values(|e: (Seq<u8>, Seq<u8>)| e.1) by {
        lemma_batch_bounds(chains.len(), m, k as nat);
        assert((k + 1) * m == k * m + m) by (nonlinear_arith);
        let l = commitment_views(batch(chains, m, k));
        let r = batch(views, m, k).map_values(|e: (Seq<u8>, Seq<u8>)| e.1);
        assert forall|j: int| 0 <= j < l.len() implies l[j] == r[j] by {
            assert(batch(chains, m, k)[j] == chains[k * m + j]);
            assert(batch(views, m, k)[j] == views[k * m + j]);
        }
        assert(l =~= r);
    }
    assert(group_level_spec(chains, m, block_hash) =~= group_level_of_entries(views, m, block_hash));
}

/// The named proofs as pairs of texts and bytes.
pub open spec fn named_views(s: Seq<NamedProof>) -> Seq<(Seq<char>, Seq<u8>)> {
    s.map_values(|e: NamedProof| (e.id@, e.proof@))
}

/// The batches cover the items, with less than one batch to spare.
proof fn lemma_batch_count_bounds(n: nat, m: nat)
    requires
        m > 0,
    ensures
        batch_count(n, m) * m >= n,
        batch_count(n, m) * m < n + m,
{
    let x = n + m - 1;
    let q = x / (m as int);
    vstd::arithmetic::div_mod::lemma_fundamental_div_mod(x, m as int);
    vstd::arithmetic::div_mod::lemma_mod_pos_bound(x, m as int);
    vstd::arithmetic::mul::lemma_mul_is_commutative(m as int, q);
    assert(q >= 0) by {
        vstd::arithmetic::div_mod::lemma_div_pos_is_pos(x, m as int);
    }
}

/// A batch below the count starts inside the items.
proof fn lemma_batch_bounds(n: nat, m: nat, k: nat)
    requires
        m > 0,
        k < batch_count(n, m),
    ensures
        k * m < n,
{
    lemma_batch_count_bounds(n, m);
    let q = batch_count(n, m);
    assert((k + 1) * m <= q * m) by (nonlinear_arith)
        requires
            k + 1 <= q,
    ;
    assert((k + 1) * m == k * m + m) by (nonlinear_arith);
}

/// After the last batch every item is placed.
proof fn lemma_batch_end(n: nat, m: nat)
    requires
        m > 0,
    ensures
        batch_count(n, m) * m >= n,
        batch_count(n, m) == 0 ==> n == 0,
{
    lemma_batch_count_bounds(n, m);
}

/// Copies a commitment table entry.
fn copy_entry(e: &ChainCommitment) -> (r: ChainCommitment)
    ensures
        r.chain_id@ == e.chain_id@,
        r.commitment@ == e.commitment@,
{
    ChainCommitment { chain_id: copy_bytes(e.chain_id.as_slice()), commitment: copy_bytes(e.commitment.as_slice()) }
}

/// Copies a named proof.
fn copy_named(e: &NamedProof) -> (r: NamedProof)
    ensures
        r.id@ == e.id@,
        r.proof@ == e.proof@,
{
    NamedProof { id: e.id.clone(), proof: copy_bytes(e.proof.as_slice()) }
}

/// Whether a batch is batch `k` of the chains: its name is
/// `new_group_id(k)` and it holds those chains with their commitments.
pub open spec fn chain_batch_ok(b: ChainBatch, chains: Seq<ChainCommitment>, m: nat, k: int) -> bool {
    &&& b.group_id@ == new_group_id(k as u32)
    &&& b.chains@.len() == batch(chains, m, k).len()
    &&& forall|j: int|
        0 <= j < b.chains@.len() ==> (#[trigger] b.chains@[j]).chain_id@ == batch(chains, m, k)[j].chain_id@
            && b.chains@[j].commitment@ == batch(chains, m, k)[j].commitment@
}

/// Whether a batch is batch `k` of the group proofs: its name is
/// `new_region_id(k)` and it holds those groups with their proofs.
pub open spec fn group_batch_ok(b: GroupBatch, groups: Seq<NamedProof>, m: nat, k: int) -> bool {
    &&& b.region_id@ == new_region_id(k as u32)
    &&& b.groups@.len() == batch(groups, m, k).len()
    &&& forall|j: int|
        0 <= j < b.groups@.len() ==> (#[trigger] b.groups@[j]).id@ == batch(groups, m, k)[j].id@
            && b.groups@[j].proof@ == batch(groups, m, k)[j].proof@
}

/// The hierarchical proof engine.
pub struct HierarchicalGlobalProof {
    /// Maximum chains per group.
    pub max_chains_per_group: u32,
    /// Maximum groups per region.
    pub max_groups_per_region: u32,
}

impl HierarchicalGlobalProof {
    /// An engine with the given group and region sizes.
    pub fn new(max_chains_per_group: u32, max_groups_per_region: u32) -> (p: HierarchicalGlobalProof)
        ensures
            p.max_chains_per_group == max_chains_per_group,
            p.max_groups_per_region == max_groups_per_region,
    {
        HierarchicalGlobalProof { max_chains_per_group, max_groups_per_region }
    }

    /// Cuts the chains into groups of at most `max_chains_per_group`
    /// (one chain per group when the maximum is zero), in order; group `k`
    /// is named `new_group_id(k)`.
    pub fn organize_into_groups(&self, chain_commitments: &Vec<ChainCommitment>) -> (r: HashChainResult<Vec<ChainBatch>>)
        requires
            chain_commitments@.len() <= u32::MAX,
        ensures
            r matches Ok(bs) && {
                let m = batch_size(self.max_chains_per_group);
                &&& bs@.len() == batch_count(chain_commitments@.len(), m)
                &&& forall|k: int| 0 <= k < bs@.len() ==> #[trigger] chain_batch_ok(bs@[k], chain_commitments@, m, k)
            },
    {
        let m: u32 = if self.max_chains_per_group == 0 { 1 } else { self.max_chains_per_group };
        let n = chain_commitments.len();
        let mut batches: Vec<ChainBatch> = Vec::new();
        let mut k: u32 = 0;
        let mut start: usize = 0;
        proof {
            lemma_batch_count_bounds(n as nat, m as nat);
            if n == 0 {
                let q = batch_count(0, m as nat);
                assert(q == 0) by (nonlinear_arith)
                    requires
                        q * m < m,
                        m > 0,
                        q >= 0,
                ;
            }
        }
        while start < n
            invariant
                m == batch_size(self.max_chains_per_group),
                n == chain_commitments@.len(),
                n <= u32::MAX,
                start == k as nat * m as nat || start == n,
                start <= n,
                start < n ==> start == k as nat * m as nat,
                start == n ==> k == batch_count(n as nat, m as nat),
                start < n ==> k < batch_count(n as nat, m as nat),
                batches@.len() == k,
                forall|b: int| 0 <= b < k ==> #[trigger] chain_batch_ok(batches@[b], chain_commitments@, m as nat, b),
            decreases n - start,
        {
            let end: usize = if n - start > m as usize { start + m as usize } else { n };
            let mut chains: Vec<ChainCommitment> = Vec::new();
            let mut j: usize = start;
            while j < end
                invariant
                    start <= j <= end <= n,
                    n == chain_commitments@.len(),
                    chains@.len() == j - start,
                    forall|t: int|
                        0 <= t < j - start ==> #[trigger] chains@[t].chain_id@ == chain_commitments@[start + t].chain_id@
                            && chains@[t].commitment@ == chain_commitments@[start + t].commitment@,
                decreases end - j,
            {
                chains.push(copy_entry(&chain_commitments[j]));
                j = j + 1;
            }
            let mut group_id = String::from_str("group_");
            let number = format_zero_padded(k as u64, 6);
            group_id.append(number.as_str());
            let ghost before = batches@;
            let ghost chains_g = chains@;
            let ghost gid = group_id@;
            batches.push(ChainBatch { group_id, chains });
            proof {
                let b = batch(chain_commitments@, m as nat, k as int);
                assert((k + 1) * m == k * m + m) by (nonlinear_arith);
                assert(b.len() == end - start);
                assert forall|bb: int| 0 <= bb < k + 1 implies #[trigger] chain_batch_ok(
                    batches@[bb],
                    chain_commitments@,
                    m as nat,
                    bb,
                ) by {
                    if bb < k {
                        assert(batches@[bb] == before[bb]);
                    } else {
                        assert(batches@[bb].chains@ == chains_g);
                        assert(batches@[bb].group_id@ == gid);
                        assert forall|j: int| 0 <= j < chains_g.len() implies chains_g[j].chain_id@ == b[j].chain_id@
                            && chains_g[j].commitment@ == b[j].commitment@ by {
                            assert(chains_g[j].chain_id@ == chain_commitments@[start + j].chain_id@);
                        }
                    }
                }
                lemma_batch_end(n as nat, m as nat);
                assert(k <= k * m) by (nonlinear_arith)
                    requires
                        m >= 1,
                ;
                if end < n {
                    assert((k + 1) * m == end);
                    lemma_batch_bounds_converse(n as nat, m as nat, (k + 1) as nat);
                } else {
                    lemma_batch_last(n as nat, m as nat, k as nat);
                }
            }
            start = end;
            k = k + 1;
        }
        Ok(batches)
    }

    /// Cuts the group proofs into regions of at most
    /// `max_groups_per_region` (one group per region when the maximum is
    /// zero), in order; region `k` is named `new_region_id(k)`.
    pub fn organize_groups_into_regions(&self, group_proofs: &Vec<NamedProof>) -> (r: HashChainResult<Vec<GroupBatch>>)
        requires
            group_proofs@.len() <= u32::MAX,
        ensures
            r matches Ok(bs) && {
                let m = batch_size(self.max_groups_per_region);
                &&& bs@.len() == batch_count(group_proofs@.len(), m)
                &&& forall|k: int| 0 <= k < bs@.len() ==> #[trigger] group_batch_ok(bs@[k], group_proofs@, m, k)
            },
    {
        let m: u32 = if self.max_groups_per_region == 0 { 1 } else { self.max_groups_per_region };
        let n = group_proofs.len();
        let mut batches: Vec<GroupBatch> = Vec::new();
        let mut k: u32 = 0;
        let mut start: usize = 0;
        proof {
            lemma_batch_count_bounds(n as nat, m as nat);
            if n == 0 {
                let q = batch_count(0, m as nat);
                assert(q == 0) by (nonlinear_arith)
                    requires
                        q * m < m,
                        m > 0,
                        q >= 0,
                ;
            }
        }
        while start < n
            invariant
                m == batch_size(self.max_groups_per_region),
                n == group_proofs@.len(),
                n <= u32::MAX,
                start == k as nat * m as nat || start == n,
                start <= n,
                start < n ==> start == k as nat * m as nat,
                start == n ==> k == batch_count(n as nat, m as nat),
                start < n ==> k < batch_count(n as nat, m as nat),
                batches@.len() == k,
                forall|b: int| 0 <= b < k ==> #[trigger] group_batch_ok(batches@[b], group_proofs@, m as nat, b),
            decreases n - start,
        {
            let end: usize = if n - start > m as usize { start + m as usize } else { n };
            let mut groups: Vec<NamedProof> = Vec::new();
            let mut j: usize = start;
            while j < end
                invariant
                    start <= j <= end <= n,
                    n == group_proofs@.len(),
                    groups@.len() == j - start,
                    forall|t: int|
                        0 <= t < j - start ==> #[trigger] groups@[t].id@ == group_proofs@[start + t].id@
                            && groups@[t].proof@ == group_proofs@[start + t].proof@,
                decreases end - j,
            {
                groups.push(copy_named(&group_proofs[j]));
                j = j + 1;
            }
            let mut group_id = String::from_str("region_");
            let number = format_zero_padded(k as u64, 3);
            group_id.append(number.as_str());
            let ghost before = batches@;
            let ghost groups_g = groups@;
            let ghost gid = group_id@;
            batches.push(GroupBatch { region_id: group_id, groups });
            proof {
                let b = batch(group_proofs@, m as nat, k as int);
                assert((k + 1) * m == k * m + m) by (nonlinear_arith);
                assert(b.len() == end - start);
                assert forall|bb: int| 0 <= bb < k + 1 implies #[trigger] group_batch_ok(
                    batches@[bb],
                    group_proofs@,
                    m as nat,
                    bb,
                ) by {
                    if bb < k {
                        assert(batches@[bb] == before[bb]);
                    } else {
                        assert(batches@[bb].groups@ == groups_g);
                        assert(batches@[bb].region_id@ == gid);
                        assert forall|j: int| 0 <= j < groups_g.len() implies groups_g[j].id@ == b[j].id@
                            && groups_g[j].proof@ == b[j].proof@ by {
                            assert(groups_g[j].id@ == group_proofs@[start + j].id@);
                        }
                    }
                }
                lemma_batch_end(n as nat, m as nat);
                assert(k <= k * m) by (nonlinear_arith)
                    requires
                        m >= 1,
                ;
                if end < n {
                    assert((k + 1) * m == end);
                    lemma_batch_bounds_converse(n as nat, m as nat, (k + 1) as nat);
                } else {
                    lemma_batch_last(n as nat, m as nat, k as nat);
                }
            }
            start = end;
            k = k + 1;
        }
        Ok(batches)
    }

    /// The proof of one group (`group_proof_spec` over the commitments of
    /// its chains). Never fails.
    pub fn compute_group_proof(&self, group_id: &String, group_chains: &Vec<ChainCommitment>, block_hash: &Vec<u8>) -> (r:
        HashChainResult<Vec<u8>>)
        requires
            commitments_long_enough(group_chains@),
        ensures
            r matches Ok(p) && p@ == group_proof_spec(group_id@, commitment_views(group_chains@), block_hash@)
                && p@.len() == 32,
    {
        if group_chains.len() == 0 {
            return Ok(zero_hash_bytes());
        }
        let mut commitments: Vec<Vec<u8>> = Vec::new();
        let mut i: usize = 0;
        while i < group_chains.len()
            invariant
                i <= group_chains@.len(),
                commitments_long_enough(group_chains@),
                commitments@.len() == i,
                forall|j: int| 0 <= j < i ==> #[trigger] commitments@[j]@ == group_chains@[j].commitment@,
            decreases group_chains@.len() - i,
        {
            commitments.push(copy_bytes(group_chains[i].commitment.as_slice()));
            i = i + 1;
        }
        assert(byte_views(commitments@) =~= commitment_views(group_chains@));
        assert(leaves_long_enough(byte_views(commitments@))) by {
            assert forall|j: int| 0 <= j < byte_views(commitments@).len() implies #[trigger] byte_views(
                commitments@,
            )[j].len() >= 32 by {
                assert(group_chains@[j].commitment@.len() >= 32);
            }
        }
        let merkle = compute_merkle_root(&commitments);
        Ok(compute_level_proof(block_hash, &merkle, group_id, GROUP_ITERATIONS))
    }

    /// The proof of one region (`regional_proof_spec` over the proofs of its
    /// groups). Never fails.
    pub fn compute_regional_proof(&self, region_id: &String, region_groups: &Vec<NamedProof>, block_hash: &Vec<u8>) -> (r:
        HashChainResult<Vec<u8>>)
        requires
            proofs_long_enough(region_groups@),
        ensures
            r matches Ok(p) && p@ == regional_proof_spec(region_id@, proof_views(region_groups@), block_hash@)
                && p@.len() == 32,
    {
        if region_groups.len() == 0 {
            return Ok(zero_hash_bytes());
        }
        let proofs = proof_list(region_groups);
        let merkle = compute_merkle_root(&proofs);
        Ok(compute_level_proof(block_hash, &merkle, region_id, REGIONAL_ITERATIONS))
    }

    /// The global root proof over the regional proofs (`global_root_spec`).
    /// Never fails.
    pub fn compute_global_root_proof(
        &self,
        regional_proofs: &Vec<NamedProof>,
        block_hash: &Vec<u8>,
        previous_global_proof: &Vec<u8>,
    ) -> (r: HashChainResult<Vec<u8>>)
        requires
            proofs_long_enough(regional_proofs@),
            regional_proofs@.len() <= u32::MAX,
        ensures
            r matches Ok(p) && p@ == global_root_spec(proof_views(regional_proofs@), block_hash@, previous_global_proof@)
                && p@.len() == 32,
    {
        if regional_proofs.len() == 0 {
            return Ok(zero_hash_bytes());
        }
        let proofs = proof_list(regional_proofs);
        let merkle = compute_merkle_root(&proofs);
        let mut data: Vec<u8> = Vec::new();
        append_bytes(&mut data, block_hash.as_slice());
        append_bytes(&mut data, merkle.as_slice());
        append_bytes(&mut data, previous_global_proof.as_slice());
        append_bytes(&mut data, u32_to_be_bytes(regional_proofs.len() as u32).as_slice());
        let state = sha256(data.as_slice());
        Ok(iterate_sha256(state, GLOBAL_ROOT_ITERATIONS))
    }

    /// The proof of every group, in order.
    pub fn compute_all_group_proofs_parallel(&self, chain_groups: &Vec<ChainBatch>, block_hash: &Vec<u8>) -> (r:
        HashChainResult<Vec<NamedProof>>)
        requires
            forall|k: int| 0 <= k < chain_groups@.len() ==> commitments_long_enough(#[trigger] chain_groups@[k].chains@),
        ensures
            r matches Ok(ps) && ps@.len() == chain_groups@.len() && forall|k: int|
                0 <= k < ps@.len() ==> #[trigger] ps@[k].id@ == chain_groups@[k].group_id@ && ps@[k].proof@
                    == group_proof_spec(chain_groups@[k].group_id@, commitment_views(chain_groups@[k].chains@), block_hash@)
                    && ps@[k].proof@.len() == 32,
    {
        let mut results: Vec<NamedProof> = Vec::new();
        let mut k: usize = 0;
        while k < chain_groups.len()
            invariant
                k <= chain_groups@.len(),
                results@.len() == k,
                forall|b: int| 0 <= b < chain_groups@.len() ==> commitments_long_enough(#[trigger] chain_groups@[b].chains@),
                forall|b: int|
                    0 <= b < k ==> #[trigger] results@[b].id@ == chain_groups@[b].group_id@ && results@[b].proof@
                        == group_proof_spec(chain_groups@[b].group_id@, commitment_views(chain_groups@[b].chains@), block_hash@)
                        && results@[b].proof@.len() == 32,
            decreases chain_groups@.len() - k,
        {
            let g = &chain_groups[k];
            assert(commitments_long_enough(chain_groups@[k as int].chains@));
            let proof = match self.compute_group_proof(&g.group_id, &g.chains, block_hash) {
                Ok(p) => p,
                Err(e) => {
                    return Err(e);
                },
            };
            results.push(NamedProof { id: g.group_id.clone(), proof });
            k = k + 1;
        }
        Ok(results)
    }

    /// The proof of every region, in order.
    pub fn compute_all_regional_proofs_parallel(&self, group_regions: &Vec<GroupBatch>, block_hash: &Vec<u8>) -> (r:
        HashChainResult<Vec<NamedProof>>)
        requires
            forall|k: int| 0 <= k < group_regions@.len() ==> proofs_long_enough(#[trigger] group_regions@[k].groups@),
        ensures
            r matches Ok(ps) && ps@.len() == group_regions@.len() && forall|k: int|
                0 <= k < ps@.len() ==> #[trigger] ps@[k].id@ == group_regions@[k].region_id@ && ps@[k].proof@
                    == regional_proof_spec(group_regions@[k].region_id@, proof_views(group_regions@[k].groups@), block_hash@)
                    && ps@[k].proof@.len() == 32,
    {
        let mut results: Vec<NamedProof> = Vec::new();
        let mut k: usize = 0;
        while k < group_regions.len()
            invariant
                k <= group_regions@.len(),
                results@.len() == k,
                forall|b: int| 0 <= b < group_regions@.len() ==> proofs_long_enough(#[trigger] group_regions@[b].groups@),
                forall|b: int|
                    0 <= b < k ==> #[trigger] results@[b].id@ == group_regions@[b].region_id@ && results@[b].proof@
                        == regional_proof_spec(group_regions@[b].region_id@, proof_views(group_regions@[b].groups@), block_hash@)
                        && results@[b].proof@.len() == 32,
            decreases group_regions@.len() - k,
        {
            let g = &group_regions[k];
            assert(proofs_long_enough(group_regions@[k as int].groups@));
            let proof = match self.compute_regional_proof(&g.region_id, &g.groups, block_hash) {
                Ok(p) => p,
                Err(e) => {
                    return Err(e);
                },
            };
            results.push(NamedProof { id: g.region_id.clone(), proof });
            k = k + 1;
        }
        Ok(results)
    }

    /// Computes the hierarchical proof of a block: the chains are put in
    /// canonical order (by identifier, then commitment), cut into groups
    /// (`organize_into_groups`), each group proved, the group proofs cut
    /// into regions, each region proved, and the global root proved over the
    /// regional proofs and the previous global proof. The levels are exactly
    /// `group_level_of_entries` of the canonical order, `region_level_spec`
    /// and `global_root_spec`; the root is `hierarchical_root_spec` of the
    /// entries, so it depends only on which entries are given. Every proof
    /// is 32 bytes.
    pub fn compute_hierarchical_proof(
        &self,
        block_hash: &Vec<u8>,
        all_chain_commitments: &Vec<ChainCommitment>,
        previous_global_proof: &Vec<u8>,
    ) -> (r: HashChainResult<HierarchicalProofResult>)
        requires
            commitments_long_enough(all_chain_commitments@),
            all_chain_commitments@.len() <= u32::MAX,
            table_ids_distinct(all_chain_commitments@),
        ensures
            r matches Ok(res) && {
                &&& named_views(res.group_proofs@) == group_level_of_entries(
                    canonical_entries(entry_views(all_chain_commitments@)),
                    batch_size(self.max_chains_per_group),
                    block_hash@,
                )
                &&& named_views(res.regional_proofs@) == region_level_spec(
                    named_views(res.group_proofs@),
                    batch_size(self.max_groups_per_region),
                    block_hash@,
                )
                &&& res.global_root_proof@ == global_root_spec(
                    proof_views(res.regional_proofs@),
                    block_hash@,
                    previous_global_proof@,
                )
                &&& res.global_root_proof@ == hierarchical_root_spec(
                    entry_views(all_chain_commitments@),
                    batch_size(self.max_chains_per_group),
                    batch_size(self.max_groups_per_region),
                    block_hash@,
                    previous_global_proof@,
                )
                &&& forall|k: int| 0 <= k < res.group_proofs@.len() ==> #[trigger] res.group_proofs@[k].proof@.len() == 32
                &&& forall|k: int|
                    0 <= k < res.regional_proofs@.len() ==> #[trigger] res.regional_proofs@[k].proof@.len() == 32
                &&& res.global_root_proof@.len() == 32
            },
    {
        let sorted = sort_entries(all_chain_commitments);
        let chain_groups = self.organize_into_groups(&sorted)?;
        let ghost m = batch_size(self.max_chains_per_group);
        proof {
            assert forall|k: int| 0 <= k < chain_groups@.len() implies commitments_long_enough(
                #[trigger] chain_groups@[k].chains@,
            ) by {
                assert(chain_batch_ok(chain_groups@[k], sorted@, m, k));
                lemma_batch_bounds(sorted@.len(), m, k as nat);
                assert forall|j: int| 0 <= j < chain_groups@[k].chains@.len() implies #[trigger] chain_groups@[k].chains@[j].commitment@.len() >= 32 by {
                    assert(chain_groups@[k].chains@[j].commitment@ == batch(sorted@, m, k)[j].commitment@);
                    let start = k * m;
                    assert((k + 1) * m == k * m + m) by (nonlinear_arith);
                    assert(batch(sorted@, m, k)[j] == sorted@[start + j]);
                }
            }
        }
        let group_proofs = self.compute_all_group_proofs_parallel(&chain_groups, block_hash)?;
        proof {
            assert(named_views(group_proofs@) =~= group_level_spec(sorted@, m, block_hash@)) by {
                assert forall|k: int| 0 <= k < group_proofs@.len() implies #[trigger] named_views(group_proofs@)[k]
                    == group_level_spec(sorted@, m, block_hash@)[k] by {
                    assert(chain_batch_ok(chain_groups@[k], sorted@, m, k));
                    assert(commitment_views(chain_groups@[k].chains@) =~= commitment_views(
                        batch(sorted@, m, k),
                    ));
                }
            }
            assert(group_proofs@.len() <= u32::MAX) by {
                lemma_batch_count_bounds(sorted@.len(), m);
                assert(batch_count(sorted@.len(), m) <= sorted@.len()
                    || sorted@.len() == 0) by (nonlinear_arith)
                    requires
                        m >= 1,
                        batch_count(sorted@.len(), m) * m < sorted@.len() + m,
                        batch_count(sorted@.len(), m) * m >= sorted@.len(),
                ;
            }
        }
        let group_regions = self.organize_groups_into_regions(&group_proofs)?;
        let ghost mr = batch_size(self.max_groups_per_region);
        proof {
            assert forall|k: int| 0 <= k < group_regions@.len() implies proofs_long_enough(
                #[trigger] group_regions@[k].groups@,
            ) by {
                assert(group_batch_ok(group_regions@[k], group_proofs@, mr, k));
                lemma_batch_bounds(group_proofs@.len(), mr, k as nat);
                assert forall|j: int| 0 <= j < group_regions@[k].groups@.len() implies #[trigger] group_regions@[k].groups@[j].proof@.len() >= 32 by {
                    assert(group_regions@[k].groups@[j].proof@ == batch(group_proofs@, mr, k)[j].proof@);
                    let start = k * mr;
                    assert((k + 1) * mr == k * mr + mr) by (nonlinear_arith);
                    assert(batch(group_proofs@, mr, k)[j] == group_proofs@[start + j]);
                }
            }
        }
        let regional_proofs = self.compute_all_regional_proofs_parallel(&group_regions, block_hash)?;
        proof {
            assert(named_views(regional_proofs@) =~= region_level_spec(named_views(group_proofs@), mr, block_hash@)) by {
                assert forall|k: int| 0 <= k < regional_proofs@.len() implies #[trigger] named_views(regional_proofs@)[k]
                    == region_level_spec(named_views(group_proofs@), mr, block_hash@)[k] by {
                    assert(group_batch_ok(group_regions@[k], group_proofs@, mr, k));
                    lemma_batch_bounds(group_proofs@.len(), mr, k as nat);
                    assert((k + 1) * mr == k * mr + mr) by (nonlinear_arith);
                    let lhs = proof_views(group_regions@[k].groups@);
                    let rhs = batch(named_views(group_proofs@), mr, k).map_values(|p: (Seq<char>, Seq<u8>)| p.1);
                    assert forall|j: int| 0 <= j < lhs.len() implies lhs[j] == rhs[j] by {
                        assert(group_regions@[k].groups@[j].proof@ == batch(group_proofs@, mr, k)[j].proof@);
                        assert(batch(group_proofs@, mr, k)[j] == group_proofs@[k * mr + j]);
                        assert(batch(named_views(group_proofs@), mr, k)[j] == named_views(group_proofs@)[k * mr + j]);
                    }
                    assert(lhs =~= rhs);
                }
            }
            assert(regional_proofs@.len() <= u32::MAX) by {
                lemma_batch_count_bounds(group_proofs@.len(), mr);
                assert(batch_count(group_proofs@.len(), mr) <= group_proofs@.len() || group_proofs@.len() == 0)
                    by (nonlinear_arith)
                    requires
                        mr >= 1,
                        batch_count(group_proofs@.len(), mr) * mr < group_proofs@.len() + mr,
                        batch_count(group_proofs@.len(), mr) * mr >= group_proofs@.len(),
                ;
            }
            assert(proofs_long_enough(regional_proofs@)) by {
                assert forall|j: int| 0 <= j < regional_proofs@.len() implies #[trigger] regional_proofs@[j].proof@.len() >= 32 by {
                    assert(regional_proofs@[j].id@ == group_regions@[j].region_id@);
                    assert(regional_proofs@[j].proof@.len() == 32);
                }
            }
        }
        let global_root_proof = self.compute_global_root_proof(&regional_proofs, block_hash, previous_global_proof)?;
        proof {
            lemma_group_level_of_views(sorted@, m, block_hash@);
            assert(proof_views(regional_proofs@) =~= named_views(regional_proofs@).map_values(
                |p: (Seq<char>, Seq<u8>)| p.1,
            ));
            assert forall|k: int| 0 <= k < group_proofs@.len() implies #[trigger] group_proofs@[k].proof@.len() == 32 by {
                assert(group_proofs@[k].id@ == chain_groups@[k].group_id@);
            }
            assert forall|k: int| 0 <= k < regional_proofs@.len() implies #[trigger] regional_proofs@[k].proof@.len()
                == 32 by {
                assert(regional_proofs@[k].id@ == group_regions@[k].region_id@);
            }
        }
        Ok(HierarchicalProofResult { global_root_proof, group_proofs, regional_proofs })
    }
}

/// The proofs of a list of named proofs.
fn proof_list(named: &Vec<NamedProof>) -> (proofs: Vec<Vec<u8>>)
    requires
        proofs_long_enough(named@),
    ensures
        byte_views(proofs@) == proof_views(named@),
        leaves_long_enough(byte_views(proofs@)),
{
    let mut proofs: Vec<Vec<u8>> = Vec::new();
    let mut i: usize = 0;
    while i < named.len()
        invariant
            i <= named@.len(),
            proofs@.len() == i,
            forall|j: int| 0 <= j < i ==> #[trigger] proofs@[j]@ == named@[j].proof@,
        decreases named@.len() - i,
    {
        proofs.push(copy_bytes(named[i].proof.as_slice()));
        i = i + 1;
    }
    assert(byte_views(proofs@) =~= proof_views(named@));
    assert forall|j: int| 0 <= j < byte_views(proofs@).len() implies #[trigger] byte_views(proofs@)[j].len() >= 32 by {
        assert(named@[j].proof@.len() >= 32);
    }
    proofs
}

/// A batch that starts inside the items is counted.
proof fn lemma_batch_bounds_converse(n: nat, m: nat, k: nat)
    requires
        m > 0,
        k * m < n,
    ensures
        k < batch_count(n, m),
{
    lemma_batch_count_bounds(n, m);
    let q = batch_count(n, m);
    if k >= q {
        assert(k * m >= q * m) by (nonlinear_arith)
            requires
                k >= q,
        ;
    }
}

/// The batch that reaches the end of the items is the last one.
proof fn lemma_batch_last(n: nat, m: nat, k: nat)
    requires
        m > 0,
        k * m < n,
        n <= (k + 1) * m,
    ensures
        k + 1 == batch_count(n, m),
{
    lemma_batch_count_bounds(n, m);
    lemma_batch_bounds_converse(n, m, k);
    let q = batch_count(n, m);
    if q > k + 1 {
        assert(q * m >= (k + 2) * m) by (nonlinear_arith)
            requires
                q >= k + 2,
        ;
        assert((k + 2) * m == (k + 1) * m + m) by (nonlinear_arith);
    }
}

impl Default for HierarchicalGlobalProof {
    /// An engine with the standard group and region sizes.
    fn default() -> (p: HierarchicalGlobalProof)
        ensures
            p.max_chains_per_group == CHAINS_PER_GROUP,
            p.max_groups_per_region == GROUPS_PER_REGION,
    {
        HierarchicalGlobalProof::new(CHAINS_PER_GROUP, GROUPS_PER_REGION)
    }
}

} // verus!
