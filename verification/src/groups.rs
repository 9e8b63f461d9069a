//! Level 1 of the hierarchy: groups of chains, their proofs, and the manager
//! that assigns chains to groups.
use vstd::prelude::*;

use crate::consts::{CHAINS_PER_GROUP, GROUP_ITERATIONS};
use crate::crypto::{bytes_to_hex, hex_encode_spec};
use crate::errors::{HashChainError, HashChainResult};
use crate::header::{zero_hash, zero_hash_bytes};
use crate::ids::{decimal, format_zero_padded, lemma_zero_padded_decimal_injective, zero_padded};
use crate::merkle::{compute_level_proof, compute_merkle_root, leaves_long_enough, level_proof, merkle_root_of};
use crate::seqs::{byte_views, bytes_equal, copy_byte_vecs, copy_bytes};

verus! {

/// The current commitment of one chain.
pub struct ChainCommitment {
    /// Chain identifier.
    pub chain_id: Vec<u8>,
    /// The chain's current commitment.
    pub commitment: Vec<u8>,
}

/// A proof computed for a named group or region.
pub struct NamedProof {
    /// Group or region identifier.
    pub id: String,
    /// The proof.
    pub proof: Vec<u8>,
}

/// No chain is listed twice in a commitment table: the table stands for a
/// map from chain identifiers to commitments.
pub open spec fn table_ids_distinct(table: Seq<ChainCommitment>) -> bool {
    forall|i: int, j: int| 0 <= i < j < table.len() ==> #[trigger] table[i].chain_id@ != #[trigger] table[j].chain_id@
}

/// No name is listed twice in a table of named proofs: the table stands for
/// a map from names to proofs.
pub open spec fn proof_names_distinct(table: Seq<NamedProof>) -> bool {
    forall|i: int, j: int| 0 <= i < j < table.len() ==> #[trigger] table[i].id@ != #[trigger] table[j].id@
}

/// The commitment a table holds for a chain: that of its first entry.
pub open spec fn lookup_commitment(table: Seq<ChainCommitment>, chain_id: Seq<u8>) -> Option<Seq<u8>>
    decreases table.len(),
{
    if table.len() == 0 {
        None
    } else if table[0].chain_id@ == chain_id {
        Some(table[0].commitment@)
    } else {
        lookup_commitment(table.drop_first(), chain_id)
    }
}

/// Whether every commitment of a table has at least 32 bytes (the Merkle
/// tree reads the first 32).
pub open spec fn commitments_long_enough(table: Seq<ChainCommitment>) -> bool {
    forall|i: int| 0 <= i < table.len() ==> #[trigger] table[i].commitment@.len() >= 32
}

/// Whether the commitment each listed chain has in the table (if any) has at
/// least 32 bytes: the Merkle tree reads the first 32 bytes of each member's
/// commitment.
pub open spec fn members_long_enough(chain_ids: Seq<Vec<u8>>, table: Seq<ChainCommitment>) -> bool {
    forall|i: int|
        0 <= i < chain_ids.len() ==> match lookup_commitment(table, #[trigger] chain_ids[i]@) {
            Some(c) => c.len() >= 32,
            None => true,
        }
}

/// Whether every group's members have long enough commitments in the table.
pub open spec fn groups_members_long_enough(groups: Seq<ChainGroup>, table: Seq<ChainCommitment>) -> bool {
    forall|g: int| 0 <= g < groups.len() ==> members_long_enough(#[trigger] groups[g].chain_ids@, table)
}

/// The commitments of the listed chains, in order, or `None` where one is
/// missing from the table.
pub open spec fn collect_commitments(chain_ids: Seq<Vec<u8>>, table: Seq<ChainCommitment>) -> Option<Seq<Seq<u8>>>
    decreases chain_ids.len(),
{
    if chain_ids.len() == 0 {
        Some(Seq::empty())
    } else {
        match collect_commitments(chain_ids.drop_last(), table) {
            Some(prev) => match lookup_commitment(table, chain_ids.last()@) {
                Some(c) => Some(prev.push(c)),
                None => None,
            },
            None => None,
        }
    }
}

/// The first listed chain that the table misses.
pub open spec fn first_missing(chain_ids: Seq<Vec<u8>>, table: Seq<ChainCommitment>) -> Seq<u8>
    decreases chain_ids.len(),
{
    if chain_ids.len() == 0 {
        Seq::empty()
    } else if collect_commitments(chain_ids.drop_last(), table) is None {
        first_missing(chain_ids.drop_last(), table)
    } else {
        chain_ids.last()@
    }
}

/// Looks a chain up in a commitment table (`lookup_commitment`).
pub fn find_commitment<'a>(table: &'a Vec<ChainCommitment>, chain_id: &Vec<u8>) -> (r: Option<&'a Vec<u8>>)
    ensures
        match r {
            Some(c) => lookup_commitment(table@, chain_id@) == Some(c@),
            None => lookup_commitment(table@, chain_id@) is None,
        },
        r matches Some(c) ==> exists|i: int| 0 <= i < table@.len() && table@[i].commitment@ == c@,
{
    let mut i: usize = 0;
    assert(table@.subrange(0, table@.len() as int) =~= table@);
    while i < table.len()
        invariant
            i <= table@.len(),
            lookup_commitment(table@, chain_id@) == lookup_commitment(table@.subrange(i as int, table@.len() as int), chain_id@),
        decreases table@.len() - i,
    {
        let ghost rest = table@.subrange(i as int, table@.len() as int);
        assert(rest.drop_first() =~= table@.subrange(i + 1, table@.len() as int));
        if bytes_equal(table[i].chain_id.as_slice(), chain_id.as_slice()) {
            return Some(&table[i].commitment);
        }
        i = i + 1;
    }
    None
}

/// Gathers the commitments of the listed chains (`collect_commitments`);
/// where one is missing, the error names it in hex.
fn gather_commitments(chain_ids: &Vec<Vec<u8>>, table: &Vec<ChainCommitment>) -> (r: Result<Vec<Vec<u8>>, Vec<u8>>)
    requires
        members_long_enough(chain_ids@, table@),
    ensures
        match r {
            Ok(cs) => collect_commitments(chain_ids@, table@) == Some(byte_views(cs@)) && leaves_long_enough(
                byte_views(cs@),
            ),
            Err(missing) => collect_commitments(chain_ids@, table@) is None && missing@ == first_missing(
                chain_ids@,
                table@,
            ),
        },
{
    let mut cs: Vec<Vec<u8>> = Vec::new();
    let mut i: usize = 0;
    while i < chain_ids.len()
        invariant
            i <= chain_ids@.len(),
            members_long_enough(chain_ids@, table@),
            collect_commitments(chain_ids@.subrange(0, i as int), table@) == Some(byte_views(cs@)),
            leaves_long_enough(byte_views(cs@)),
        decreases chain_ids@.len() - i,
    {
        let ghost prefix = chain_ids@.subrange(0, i + 1);
        assert(prefix.drop_last() =~= chain_ids@.subrange(0, i as int));
        match find_commitment(table, &chain_ids[i]) {
            Some(c) => {
                let ghost before = byte_views(cs@);
                cs.push(copy_bytes(c.as_slice()));
                assert(byte_views(cs@) =~= before.push(c@));
                assert(leaves_long_enough(byte_views(cs@))) by {
                    assert(c@.len() >= 32) by {
                        assert(lookup_commitment(table@, chain_ids@[i as int]@) == Some(c@));
                    }
                    assert forall|j: int| 0 <= j < byte_views(cs@).len() implies #[trigger] byte_views(cs@)[j].len()
                        >= 32 by {
                        if j < before.len() {
                            assert(before[j].len() >= 32);
                        }
                    }
                }
            },
            None => {
                proof {
                    lemma_first_missing(chain_ids@, table@, i as nat);
                }
                return Err(copy_bytes(chain_ids[i].as_slice()));
            },
        }
        i = i + 1;
    }
    assert(chain_ids@.subrange(0, chain_ids@.len() as int) =~= chain_ids@);
    Ok(cs)
}

/// Once a prefix collects and the next chain is missing, the whole list
/// fails on that chain.
proof fn lemma_first_missing(chain_ids: Seq<Vec<u8>>, table: Seq<ChainCommitment>, i: nat)
    requires
        i < chain_ids.len(),
        collect_commitments(chain_ids.subrange(0, i as int), table) is Some,
        lookup_commitment(table, chain_ids[i as int]@) is None,
    ensures
        collect_commitments(chain_ids, table) is None,
        first_missing(chain_ids, table) == chain_ids[i as int]@,
    decreases chain_ids.len(),
{
    if chain_ids.len() == i + 1 {
        assert(chain_ids.drop_last() =~= chain_ids.subrange(0, i as int));
    } else {
        let shorter = chain_ids.drop_last();
        assert(shorter.subrange(0, i as int) =~= chain_ids.subrange(0, i as int));
        lemma_first_missing(shorter, table, i);
    }
}

/// The proof of a group: 32 zero bytes for no member, else the level proof
/// over the Merkle root of its members' commitments, with `GROUP_ITERATIONS`.
pub open spec fn group_proof_spec(group_id: Seq<char>, commitments: Seq<Seq<u8>>, block_hash: Seq<u8>) -> Seq<u8> {
    if commitments.len() == 0 {
        zero_hash()
    } else {
        level_proof(block_hash, merkle_root_of(commitments), group_id, GROUP_ITERATIONS)
    }
}

/// A group of chains (level 1 of the hierarchy).
pub struct ChainGroup {
    /// Group identifier.
    pub group_id: String,
    /// Maximum number of chains.
    pub max_chains: u32,
    /// The chains of the group.
    pub chain_ids: Vec<Vec<u8>>,
    /// The last proof computed.
    pub last_group_proof: Option<Vec<u8>>,
    /// Block of the last proof.
    pub last_update_block: u64,
}

/// Whether a list of identifiers holds `id`.
pub open spec fn holds_id(ids: Seq<Vec<u8>>, id: Seq<u8>) -> bool {
    exists|i: int| 0 <= i < ids.len() && #[trigger] ids[i]@ == id
}

/// Whether an identifier differs from `id`.
pub open spec fn not_id(id: Seq<u8>) -> spec_fn(Seq<u8>) -> bool {
    |x: Seq<u8>| x != id
}

/// The identifiers other than `id`, in order.
pub open spec fn without_id(ids: Seq<Vec<u8>>, id: Seq<u8>) -> Seq<Seq<u8>> {
    byte_views(ids).filter(not_id(id))
}

/// Whether a list of identifiers holds `id` (exec).
fn contains_id(ids: &Vec<Vec<u8>>, id: &Vec<u8>) -> (found: bool)
    ensures
        found == holds_id(ids@, id@),
{
    let mut i: usize = 0;
    while i < ids.len()
        invariant
            i <= ids@.len(),
            forall|j: int| 0 <= j < i ==> #[trigger] ids@[j]@ != id@,
        decreases ids@.len() - i,
    {
        if bytes_equal(ids[i].as_slice(), id.as_slice()) {
            return true;
        }
        i = i + 1;
    }
    false
}

impl ChainGroup {
    /// An empty group.
    pub fn new(group_id: String, max_chains: u32) -> (g: ChainGroup)
        ensures
            g.group_id@ == group_id@,
            g.max_chains == max_chains,
            g.chain_ids@.len() == 0,
            g.last_group_proof is None,
            g.last_update_block == 0,
    {
        ChainGroup { group_id, max_chains, chain_ids: Vec::new(), last_group_proof: None, last_update_block: 0 }
    }

    /// Whether the group has reached its maximum.
    pub fn is_full(&self) -> (full: bool)
        ensures
            full == (self.chain_ids@.len() >= self.max_chains),
    {
        self.chain_ids.len() >= self.max_chains as usize
    }

    /// The number of chains (taken modulo 2^32).
    pub fn chain_count(&self) -> (n: u32)
        ensures
            n == self.chain_ids@.len() as u32,
    {
        self.chain_ids.len() as u32
    }

    /// Adds a chain: a full group refuses with `GroupFull`; a chain already
    /// present is not added twice.
    pub fn add_chain(&mut self, chain_id: Vec<u8>) -> (r: HashChainResult<()>)
        ensures
            old(self).chain_ids@.len() >= old(self).max_chains ==> (r matches Err(e) && e is GroupFull)
                && *final(self) == *old(self),
            old(self).chain_ids@.len() < old(self).max_chains ==> r is Ok && final(self).chain_ids@ == (if holds_id(
                old(self).chain_ids@,
                chain_id@,
            ) {
                old(self).chain_ids@
            } else {
                old(self).chain_ids@.push(chain_id)
            }),
            final(self).group_id == old(self).group_id,
            final(self).max_chains == old(self).max_chains,
            final(self).last_group_proof == old(self).last_group_proof,
            final(self).last_update_block == old(self).last_update_block,
            final(self).chain_ids@.len() <= old(self).max_chains || final(self).chain_ids@.len() == old(
                self,
            ).chain_ids@.len(),
    {
        if self.is_full() {
            return Err(HashChainError::GroupFull { group_id: self.group_id.clone(), max_chains: self.max_chains });
        }
        if !contains_id(&self.chain_ids, &chain_id) {
            self.chain_ids.push(chain_id);
        }
        Ok(())
    }

    /// Removes every occurrence of a chain.
    pub fn remove_chain(&mut self, chain_id: &Vec<u8>)
        ensures
            byte_views(final(self).chain_ids@) == without_id(old(self).chain_ids@, chain_id@),
            final(self).chain_ids@.len() <= old(self).chain_ids@.len(),
            final(self).group_id == old(self).group_id,
            final(self).max_chains == old(self).max_chains,
            final(self).last_group_proof == old(self).last_group_proof,
            final(self).last_update_block == old(self).last_update_block,
    {
        let mut kept: Vec<Vec<u8>> = Vec::new();
        let mut i: usize = 0;
        while i < self.chain_ids.len()
            invariant
                i <= self.chain_ids@.len(),
                self.chain_ids@ == old(self).chain_ids@,
                byte_views(kept@) == without_id(self.chain_ids@.subrange(0, i as int), chain_id@),
                kept@.len() <= i,
            decreases self.chain_ids@.len() - i,
        {
            let ghost prefix = self.chain_ids@.subrange(0, i + 1);
            assert(byte_views(prefix) =~= byte_views(self.chain_ids@.subrange(0, i as int)).push(
                self.chain_ids@[i as int]@,
            ));
            proof {
                byte_views(self.chain_ids@.subrange(0, i as int)).lemma_filter_push(
                    self.chain_ids@[i as int]@,
                    |x: Seq<u8>| x != chain_id@,
                );
            }
            if !bytes_equal(self.chain_ids[i].as_slice(), chain_id.as_slice()) {
                let ghost before = byte_views(kept@);
                kept.push(copy_bytes(self.chain_ids[i].as_slice()));
                assert(byte_views(kept@) =~= before.push(self.chain_ids@[i as int]@));
            }
            i = i + 1;
        }
        assert(self.chain_ids@.subrange(0, self.chain_ids@.len() as int) =~= self.chain_ids@);
        self.chain_ids = kept;
    }

    /// Computes the group proof at a block (`group_proof_spec` over the
    /// members' commitments) and records it with the block height. A member
    /// missing from the table gives `ChainNotFound` with its hex identifier
    /// and leaves the group unchanged.
    pub fn compute_group_proof(
        &mut self,
        block_hash: &Vec<u8>,
        chain_commitments: &Vec<ChainCommitment>,
        block_height: u64,
    ) -> (r: HashChainResult<Vec<u8>>)
        requires
            members_long_enough(old(self).chain_ids@, chain_commitments@),
            table_ids_distinct(chain_commitments@),
        ensures
            r matches Ok(p) ==> p@.len() == 32,
            match collect_commitments(old(self).chain_ids@, chain_commitments@) {
                None => (r matches Err(HashChainError::ChainNotFound { chain_id }) && chain_id@ == hex_encode_spec(
                    first_missing(old(self).chain_ids@, chain_commitments@),
                )) && *final(self) == *old(self),
                Some(cs) => (r matches Ok(p) && p@ == group_proof_spec(old(self).group_id@, cs, block_hash@)
                    && (final(self).last_group_proof matches Some(q) && q@ == p@)) && final(self).last_update_block
                    == block_height && final(self).group_id == old(self).group_id && final(self).max_chains == old(
                    self,
                ).max_chains && final(self).chain_ids == old(self).chain_ids,
            },
    {
        let commitments = match gather_commitments(&self.chain_ids, chain_commitments) {
            Ok(cs) => cs,
            Err(missing) => {
                return Err(HashChainError::ChainNotFound { chain_id: bytes_to_hex(missing.as_slice()) });
            },
        };
        let proof = if commitments.len() == 0 {
            zero_hash_bytes()
        } else {
            let merkle = compute_merkle_root(&commitments);
            compute_level_proof(block_hash, &merkle, &self.group_id, GROUP_ITERATIONS)
        };
        self.last_group_proof = Some(copy_bytes(proof.as_slice()));
        self.last_update_block = block_height;
        Ok(proof)
    }

    /// The proof this group would get at a block (`group_outcome`), without
    /// recording it.
    fn verify_inputs_proof(&self, block_hash: &Vec<u8>, chain_commitments: &Vec<ChainCommitment>) -> (r: Option<Vec<u8>>)
        requires
            members_long_enough(self.chain_ids@, chain_commitments@),
        ensures
            match r {
                Some(p) => group_outcome(*self, chain_commitments@, block_hash@) == Some(p@) && p@.len() == 32,
                None => group_outcome(*self, chain_commitments@, block_hash@) is None,
            },
    {
        let commitments = match gather_commitments(&self.chain_ids, chain_commitments) {
            Ok(cs) => cs,
            Err(_) => {
                return None;
            },
        };
        if commitments.len() == 0 {
            Some(zero_hash_bytes())
        } else {
            let merkle = compute_merkle_root(&commitments);
            Some(compute_level_proof(block_hash, &merkle, &self.group_id, GROUP_ITERATIONS))
        }
    }

    /// Checks a claimed group proof: false when a member is missing from the
    /// table, else whether it is the proof `compute_group_proof` would give.
    pub fn verify_group_proof(
        &self,
        block_hash: &Vec<u8>,
        chain_commitments: &Vec<ChainCommitment>,
        expected_proof: &Vec<u8>,
    ) -> (r: HashChainResult<bool>)
        requires
            members_long_enough(self.chain_ids@, chain_commitments@),
        ensures
            r matches Ok(b) && b == match collect_commitments(self.chain_ids@, chain_commitments@) {
                None => false,
                Some(cs) => expected_proof@ == group_proof_spec(self.group_id@, cs, block_hash@),
            },
    {
        let commitments = match gather_commitments(&self.chain_ids, chain_commitments) {
            Ok(cs) => cs,
            Err(_) => {
                return Ok(false);
            },
        };
        let proof = if commitments.len() == 0 {
            zero_hash_bytes()
        } else {
            let merkle = compute_merkle_root(&commitments);
            compute_level_proof(block_hash, &merkle, &self.group_id, GROUP_ITERATIONS)
        };
        Ok(bytes_equal(proof.as_slice(), expected_proof.as_slice()))
    }
}

/// The proof a group gets at a block, or `None` where a member's
/// commitment is missing.
pub open spec fn group_outcome(g: ChainGroup, table: Seq<ChainCommitment>, block_hash: Seq<u8>) -> Option<Seq<u8>> {
    match collect_commitments(g.chain_ids@, table) {
        Some(cs) => Some(group_proof_spec(g.group_id@, cs, block_hash)),
        None => None,
    }
}

/// The number of groups that satisfy `p`.
pub open spec fn count_groups(groups: Seq<ChainGroup>, p: spec_fn(ChainGroup) -> bool) -> nat
    decreases groups.len(),
{
    if groups.len() == 0 {
        0
    } else {
        count_groups(groups.drop_last(), p) + if p(groups.last()) {
            1nat
        } else {
            0nat
        }
    }
}

/// Counts of a group manager.
pub struct GroupStatistics {
    /// Number of groups.
    pub total_groups: usize,
    /// Number of assigned chains.
    pub total_chains: usize,
    /// Number of groups with at least one chain.
    pub non_empty_groups: usize,
    /// Number of full groups.
    pub full_groups: usize,
}

/// The group a chain is assigned to.
pub struct GroupAssignment {
    /// Chain identifier.
    pub chain_id: Vec<u8>,
    /// Group identifier.
    pub group_id: String,
}

/// The group of a chain: that of its first assignment.
pub open spec fn assigned_group(assignments: Seq<GroupAssignment>, chain_id: Seq<u8>) -> Option<Seq<char>>
    decreases assignments.len(),
{
    if assignments.len() == 0 {
        None
    } else if assignments[0].chain_id@ == chain_id {
        Some(assignments[0].group_id@)
    } else {
        assigned_group(assignments.drop_first(), chain_id)
    }
}

/// The position of the first group that is not full, if any.
pub open spec fn first_open_group(groups: Seq<ChainGroup>) -> Option<int> {
    if exists|i: int| 0 <= i < groups.len() && groups[i].chain_ids@.len() < groups[i].max_chains {
        Some(
            choose|i: int|
                0 <= i < groups.len() && groups[i].chain_ids@.len() < groups[i].max_chains && forall|j: int|
                    0 <= j < i ==> groups[j].chain_ids@.len() >= groups[j].max_chains,
        )
    } else {
        None
    }
}

/// The identifier of the group created as number `n`: `group_` and `n`
/// zero-padded to six digits.
pub open spec fn new_group_id(n: u32) -> Seq<char> {
    "group_"@ + zero_padded(decimal(n as nat), 6)
}

/// No identifier is listed twice.
pub open spec fn ids_distinct(ids: Seq<Vec<u8>>) -> bool {
    forall|i: int, j: int| 0 <= i < j < ids.len() ==> #[trigger] ids[i]@ != #[trigger] ids[j]@
}

/// No chain has two assignments.
pub open spec fn assignments_distinct(a: Seq<GroupAssignment>) -> bool {
    forall|i: int, j: int| 0 <= i < j < a.len() ==> #[trigger] a[i].chain_id@ != #[trigger] a[j].chain_id@
}

/// Some group of the identifier lists the chain.
pub open spec fn listed_in_group(groups: Seq<ChainGroup>, group_id: Seq<char>, chain_id: Seq<u8>) -> bool {
    exists|k: int| 0 <= k < groups.len() && #[trigger] groups[k].group_id@ == group_id && holds_id(groups[k].chain_ids@, chain_id)
}

/// The membership invariant over groups and assignments: no chain is
/// assigned twice, no group lists a chain twice, and every assigned chain
/// is listed by a group of the identifier it is assigned to.
pub open spec fn membership_ok(groups: Seq<ChainGroup>, assignments: Seq<GroupAssignment>) -> bool {
    &&& assignments_distinct(assignments)
    &&& forall|k: int| 0 <= k < groups.len() ==> ids_distinct(#[trigger] groups[k].chain_ids@)
    &&& forall|i: int|
        0 <= i < assignments.len() ==> listed_in_group(
            groups,
            #[trigger] assignments[i].group_id@,
            assignments[i].chain_id@,
        )
}

/// The membership invariant of a group manager (`membership_ok`).
pub open spec fn membership_consistent(m: GroupManager) -> bool {
    membership_ok(m.groups@, m.chain_to_group@)
}

/// A chain with an assignment is assigned.
proof fn lemma_assignment_found(a: Seq<GroupAssignment>, chain_id: Seq<u8>, i: int)
    requires
        0 <= i < a.len(),
        a[i].chain_id@ == chain_id,
    ensures
        assigned_group(a, chain_id) is Some,
    decreases i,
{
    if i > 0 && a[0].chain_id@ != chain_id {
        lemma_assignment_found(a.drop_first(), chain_id, i - 1);
    }
}

/// Assigning an unassigned chain to group `k` (an existing group, or a new
/// empty one appended) and listing it there keeps the membership invariant.
proof fn lemma_assign_keeps_membership(
    old_groups: Seq<ChainGroup>,
    old_assignments: Seq<GroupAssignment>,
    groups_before: Seq<ChainGroup>,
    groups_after: Seq<ChainGroup>,
    k: int,
    assignments_after: Seq<GroupAssignment>,
    chain_id: Seq<u8>,
)
    requires
        membership_ok(old_groups, old_assignments),
        assigned_group(old_assignments, chain_id) is None,
        groups_before.len() >= old_groups.len(),
        forall|j: int| 0 <= j < old_groups.len() ==> #[trigger] groups_before[j] == old_groups[j],
        forall|j: int| old_groups.len() <= j < groups_before.len() ==> #[trigger] groups_before[j].chain_ids@.len() == 0,
        0 <= k < groups_before.len(),
        groups_after.len() == groups_before.len(),
        forall|j: int| 0 <= j < groups_before.len() && j != k ==> #[trigger] groups_after[j] == groups_before[j],
        groups_after[k].group_id@ == groups_before[k].group_id@,
        byte_views(groups_after[k].chain_ids@) == (if holds_id(groups_before[k].chain_ids@, chain_id) {
            byte_views(groups_before[k].chain_ids@)
        } else {
            byte_views(groups_before[k].chain_ids@).push(chain_id)
        }),
        assignments_after.len() == old_assignments.len() + 1,
        assignments_after.drop_last() == old_assignments,
        assignments_after.last().chain_id@ == chain_id,
        assignments_after.last().group_id@ == groups_before[k].group_id@,
    ensures
        membership_ok(groups_after, assignments_after),
{
    let a = groups_before[k].chain_ids@;
    let b = groups_after[k].chain_ids@;
    assert(byte_views(a).len() == a.len() && byte_views(b).len() == b.len());
    assert forall|x: int| 0 <= x < a.len() implies #[trigger] b[x]@ == a[x]@ by {
        assert(byte_views(b)[x] == b[x]@);
        assert(byte_views(a)[x] == a[x]@);
    }
    assert(holds_id(b, chain_id)) by {
        if holds_id(a, chain_id) {
            let x = choose|x: int| 0 <= x < a.len() && #[trigger] a[x]@ == chain_id;
            assert(b[x]@ == chain_id);
        } else {
            assert(byte_views(b)[a.len() as int] == b[a.len() as int]@);
        }
    }
    assert(ids_distinct(b)) by {
        if k < old_groups.len() {
            assert(ids_distinct(old_groups[k].chain_ids@));
        }
        if !holds_id(a, chain_id) {
            assert(byte_views(b)[a.len() as int] == b[a.len() as int]@);
            assert forall|i: int, j: int| 0 <= i < j < b.len() implies #[trigger] b[i]@ != #[trigger] b[j]@ by {
                if j == a.len() {
                    if b[i]@ == chain_id {
                        assert(a[i]@ == chain_id);
                    }
                } else {
                    assert(a[i]@ != a[j]@);
                }
            }
        } else {
            assert forall|i: int, j: int| 0 <= i < j < b.len() implies #[trigger] b[i]@ != #[trigger] b[j]@ by {
                assert(a[i]@ != a[j]@);
            }
        }
    }
    assert forall|g: int| 0 <= g < groups_after.len() implies ids_distinct(#[trigger] groups_after[g].chain_ids@) by {
        if g != k {
            if g < old_groups.len() {
                assert(ids_distinct(old_groups[g].chain_ids@));
            }
        }
    }
    let n = old_assignments.len();
    assert forall|i: int| 0 <= i < n implies #[trigger] assignments_after[i] == old_assignments[i] by {
        assert(assignments_after.drop_last()[i] == assignments_after[i]);
    }
    assert(assignments_distinct(assignments_after)) by {
        assert forall|i: int, j: int| 0 <= i < j < assignments_after.len() implies #[trigger] assignments_after[i].chain_id@
            != #[trigger] assignments_after[j].chain_id@ by {
            if j == n {
                if old_assignments[i].chain_id@ == chain_id {
                    lemma_assignment_found(old_assignments, chain_id, i);
                }
            } else {
                assert(old_assignments[i].chain_id@ != old_assignments[j].chain_id@);
            }
        }
    }
    assert forall|i: int| 0 <= i < assignments_after.len() implies listed_in_group(
        groups_after,
        #[trigger] assignments_after[i].group_id@,
        assignments_after[i].chain_id@,
    ) by {
        if i == n {
            assert(groups_after[k].group_id@ == assignments_after[i].group_id@);
        } else {
            let gid = old_assignments[i].group_id@;
            let cid = old_assignments[i].chain_id@;
            assert(listed_in_group(old_groups, gid, cid));
            let w = choose|w: int| 0 <= w < old_groups.len() && #[trigger] old_groups[w].group_id@ == gid && holds_id(old_groups[w].chain_ids@, cid);
            if w == k {
                let x = choose|x: int| 0 <= x < a.len() && #[trigger] a[x]@ == cid;
                assert(b[x]@ == cid);
                assert(holds_id(groups_after[w].chain_ids@, cid));
                assert(groups_after[w].group_id@ == gid);
            } else {
                assert(groups_after[w] == old_groups[w]);
                assert(groups_after[w].group_id@ == gid);
            }
        }
    }
}

/// Filtering a list without duplicates leaves none.
proof fn lemma_filter_no_duplicates(s: Seq<Seq<u8>>, p: spec_fn(Seq<u8>) -> bool)
    requires
        s.no_duplicates(),
    ensures
        s.filter(p).no_duplicates(),
    decreases s.len(),
{
    reveal(Seq::filter);
    if s.len() > 0 {
        let rest = s.drop_last();
        assert(rest.no_duplicates()) by {
            assert forall|i: int, j: int| 0 <= i < rest.len() && 0 <= j < rest.len() && i != j implies rest[i] != rest[j] by {
                assert(rest[i] == s[i] && rest[j] == s[j]);
            }
        }
        lemma_filter_no_duplicates(rest, p);
        let f = rest.filter(p);
        if p(s.last()) {
            if f.contains(s.last()) {
                rest.lemma_filter_contains_rev(p, s.last());
                let x = choose|x: int| 0 <= x < rest.len() && rest[x] == s.last();
                assert(s[x] == s[s.len() - 1]);
            }
            let g = f.push(s.last());
            assert forall|i: int, j: int| 0 <= i < g.len() && 0 <= j < g.len() && i != j implies g[i] != g[j] by {
                if i == f.len() {
                    assert(!f.contains(s.last()));
                    assert(f[j] == g[j]);
                } else if j == f.len() {
                    assert(!f.contains(s.last()));
                    assert(f[i] == g[i]);
                } else {
                    assert(f[i] == g[i] && f[j] == g[j]);
                }
            }
        }
    }
}

/// Identifiers are distinct exactly when their views have no duplicates.
proof fn lemma_ids_distinct_views(ids: Seq<Vec<u8>>)
    ensures
        ids_distinct(ids) <==> byte_views(ids).no_duplicates(),
{
    let v = byte_views(ids);
    assert forall|i: int| 0 <= i < ids.len() implies #[trigger] v[i] == ids[i]@ by {}
    if ids_distinct(ids) {
        assert forall|i: int, j: int| 0 <= i < v.len() && 0 <= j < v.len() && i != j implies v[i] != v[j] by {
            if i < j {
                assert(ids[i]@ != ids[j]@);
            } else {
                assert(ids[j]@ != ids[i]@);
            }
        }
    }
    if v.no_duplicates() {
        assert forall|i: int, j: int| 0 <= i < j < ids.len() implies #[trigger] ids[i]@ != #[trigger] ids[j]@ by {
            assert(v[i] != v[j]);
        }
    }
}

/// An assigned chain has an assignment.
proof fn lemma_assigned_has_assignment(a: Seq<GroupAssignment>, chain_id: Seq<u8>) -> (i: int)
    requires
        assigned_group(a, chain_id) is Some,
    ensures
        0 <= i < a.len(),
        a[i].chain_id@ == chain_id,
        assigned_group(a, chain_id) == Some(a[i].group_id@),
    decreases a.len(),
{
    if a[0].chain_id@ == chain_id {
        0
    } else {
        let j = lemma_assigned_has_assignment(a.drop_first(), chain_id);
        j + 1
    }
}

/// Where some group has an identifier, a first one does.
proof fn lemma_first_group_exists(groups: Seq<ChainGroup>, group_id: Seq<char>, k: int) -> (f: int)
    requires
        0 <= k < groups.len(),
        groups[k].group_id@ == group_id,
    ensures
        first_group_with_id(groups, group_id, f),
    decreases k,
{
    if exists|j: int| 0 <= j < k && groups[j].group_id@ == group_id {
        let j = choose|j: int| 0 <= j < k && groups[j].group_id@ == group_id;
        lemma_first_group_exists(groups, group_id, j)
    } else {
        k
    }
}

/// Taking a chain out of the manager (`removed_from_groups`) keeps the
/// membership invariant.
proof fn lemma_remove_keeps_membership(before: GroupManager, after: GroupManager, chain_id: Seq<u8>)
    requires
        membership_consistent(before),
        removed_from_groups(before, after, chain_id),
    ensures
        membership_consistent(after),
{
    let a = before.chain_to_group@;
    if assigned_group(a, chain_id) is Some {
        let i = lemma_assigned_has_assignment(a, chain_id);
        assert(first_assignment(a, chain_id, i)) by {
            assert forall|j: int| 0 <= j < i implies #[trigger] a[j].chain_id@ != chain_id by {
                assert(a[j].chain_id@ != a[i].chain_id@);
            }
        }
        let gid = a[i].group_id@;
        let na = after.chain_to_group@;
        assert(na == a.remove(i));
        let gb = before.groups@;
        let ga = after.groups@;
        assert(chain_left_group(gb, ga, gid, chain_id));
        assert(assignments_distinct(na)) by {
            assert forall|x: int, y: int| 0 <= x < y < na.len() implies #[trigger] na[x].chain_id@ != #[trigger] na[y].chain_id@ by {
                let ox = if x < i { x } else { x + 1 };
                let oy = if y < i { y } else { y + 1 };
                assert(na[x] == a[ox] && na[y] == a[oy]);
                assert(a[ox].chain_id@ != a[oy].chain_id@);
            }
        }
        assert(listed_in_group(gb, gid, chain_id));
        let w0 = choose|w: int| 0 <= w < gb.len() && #[trigger] gb[w].group_id@ == gid && holds_id(gb[w].chain_ids@, chain_id);
        let k0 = lemma_first_group_exists(gb, gid, w0);
        let pred = not_id(chain_id);
        assert(first_group_with_id(gb, gid, k0));
        assert(byte_views(ga[k0].chain_ids@) == without_id(gb[k0].chain_ids@, chain_id));
        assert(without_id(gb[k0].chain_ids@, chain_id) == byte_views(gb[k0].chain_ids@).filter(pred));
        assert forall|g: int| 0 <= g < ga.len() implies ids_distinct(#[trigger] ga[g].chain_ids@) by {
            assert(ids_distinct(gb[g].chain_ids@));
            if g == k0 {
                lemma_ids_distinct_views(gb[g].chain_ids@);
                lemma_filter_no_duplicates(byte_views(gb[g].chain_ids@), pred);
                lemma_ids_distinct_views(ga[g].chain_ids@);
            } else {
                assert(ga[g] == gb[g]);
            }
        }
        assert forall|x: int| 0 <= x < na.len() implies listed_in_group(
            ga,
            #[trigger] na[x].group_id@,
            na[x].chain_id@,
        ) by {
            let ox = if x < i { x } else { x + 1 };
            assert(na[x] == a[ox]);
            let gx = a[ox].group_id@;
            let cx = a[ox].chain_id@;
            assert(cx != chain_id) by {
                if ox < i {
                    assert(a[ox].chain_id@ != a[i].chain_id@);
                } else {
                    assert(a[i].chain_id@ != a[ox].chain_id@);
                }
            }
            assert(listed_in_group(gb, gx, cx));
            let w = choose|w: int| 0 <= w < gb.len() && #[trigger] gb[w].group_id@ == gx && holds_id(gb[w].chain_ids@, cx);
            if w == k0 {
                let ids = gb[w].chain_ids@;
                let pos = choose|pos: int| 0 <= pos < ids.len() && #[trigger] ids[pos]@ == cx;
                assert(byte_views(ids)[pos] == cx);
                byte_views(ids).lemma_filter_contains(pred, pos);
                let nv = byte_views(ga[w].chain_ids@);
                assert(nv.contains(cx));
                let q = choose|q: int| 0 <= q < nv.len() && nv[q] == cx;
                assert(nv[q] == ga[w].chain_ids@[q]@);
                assert(holds_id(ga[w].chain_ids@, cx));
                assert(ga[w].group_id@ == gx);
            } else {
                assert(ga[w] == gb[w]);
                assert(ga[w].group_id@ == gx);
            }
        }
    }
}

/// Groups replaced by groups of the same identifiers and members keep the
/// membership invariant.
proof fn lemma_same_members_keeps_membership(gb: Seq<ChainGroup>, ga: Seq<ChainGroup>, a: Seq<GroupAssignment>)
    requires
        membership_ok(gb, a),
        ga.len() == gb.len(),
        forall|k: int|
            0 <= k < gb.len() ==> #[trigger] ga[k].group_id@ == gb[k].group_id@ && byte_views(ga[k].chain_ids@)
                == byte_views(gb[k].chain_ids@),
    ensures
        membership_ok(ga, a),
{
    assert forall|k: int| 0 <= k < ga.len() implies ids_distinct(#[trigger] ga[k].chain_ids@) by {
        assert(ga[k].group_id@ == gb[k].group_id@);
        assert(ids_distinct(gb[k].chain_ids@));
        lemma_ids_distinct_views(gb[k].chain_ids@);
        lemma_ids_distinct_views(ga[k].chain_ids@);
    }
    assert forall|i: int| 0 <= i < a.len() implies listed_in_group(ga, #[trigger] a[i].group_id@, a[i].chain_id@) by {
        assert(listed_in_group(gb, a[i].group_id@, a[i].chain_id@));
        let w = choose|w: int|
            0 <= w < gb.len() && #[trigger] gb[w].group_id@ == a[i].group_id@ && holds_id(gb[w].chain_ids@, a[i].chain_id@);
        assert(ga[w].group_id@ == gb[w].group_id@);
        let ids = gb[w].chain_ids@;
        let pos = choose|pos: int| 0 <= pos < ids.len() && #[trigger] ids[pos]@ == a[i].chain_id@;
        assert(byte_views(ids)[pos] == ids[pos]@);
        assert(byte_views(ga[w].chain_ids@) == byte_views(ids));
        assert(byte_views(ga[w].chain_ids@).len() == ga[w].chain_ids@.len());
        assert(byte_views(ga[w].chain_ids@)[pos] == ga[w].chain_ids@[pos]@);
        assert(holds_id(ga[w].chain_ids@, a[i].chain_id@));
    }
}

/// `k` is the first position of an assignment of the chain.
pub open spec fn first_assignment(assignments: Seq<GroupAssignment>, chain_id: Seq<u8>, k: int) -> bool {
    &&& 0 <= k < assignments.len()
    &&& assignments[k].chain_id@ == chain_id
    &&& forall|j: int| 0 <= j < k ==> #[trigger] assignments[j].chain_id@ != chain_id
}

/// `k` is the first position of a group with this identifier.
pub open spec fn first_group_with_id(groups: Seq<ChainGroup>, group_id: Seq<char>, k: int) -> bool {
    &&& 0 <= k < groups.len()
    &&& groups[k].group_id@ == group_id
    &&& forall|j: int| 0 <= j < k ==> #[trigger] groups[j].group_id@ != group_id
}

/// The groups after a chain leaves the group `group_id`: the first group of
/// that identifier loses the chain, every other group stays; with no such
/// group nothing changes.
pub open spec fn chain_left_group(
    before: Seq<ChainGroup>,
    after: Seq<ChainGroup>,
    group_id: Seq<char>,
    chain_id: Seq<u8>,
) -> bool {
    &&& after.len() == before.len()
    &&& (forall|k: int| 0 <= k < before.len() ==> #[trigger] before[k].group_id@ != group_id) ==> after == before
    &&& forall|k: int|
        #[trigger] first_group_with_id(before, group_id, k) ==> {
            &&& byte_views(after[k].chain_ids@) == without_id(before[k].chain_ids@, chain_id)
            &&& after[k].group_id == before[k].group_id
            &&& after[k].max_chains == before[k].max_chains
            &&& after[k].last_group_proof == before[k].last_group_proof
            &&& after[k].last_update_block == before[k].last_update_block
            &&& forall|j: int| 0 <= j < before.len() && j != k ==> #[trigger] after[j] == before[j]
        }
}

/// Appending an assignment of a chain that had none makes it the chain's
/// assignment.
proof fn lemma_assigned_after_push(before: Seq<GroupAssignment>, after: Seq<GroupAssignment>, chain_id: Seq<u8>)
    requires
        assigned_group(before, chain_id) is None,
        after.len() == before.len() + 1,
        after.drop_last() == before,
        after.last().chain_id@ == chain_id,
    ensures
        assigned_group(after, chain_id) == Some(after.last().group_id@),
    decreases before.len(),
{
    if before.len() > 0 {
        assert(after[0] == before[0]);
        assert(after.drop_first().drop_last() =~= before.drop_first());
        lemma_assigned_after_push(before.drop_first(), after.drop_first(), chain_id);
    }
}

/// The first assignment of a chain names its group.
proof fn lemma_first_assignment_assigned(assignments: Seq<GroupAssignment>, chain_id: Seq<u8>, k: int)
    requires
        first_assignment(assignments, chain_id, k),
    ensures
        assigned_group(assignments, chain_id) == Some(assignments[k].group_id@),
    decreases k,
{
    if k > 0 {
        assert(assignments[0].chain_id@ != chain_id);
        assert(first_assignment(assignments.drop_first(), chain_id, k - 1)) by {
            assert forall|j: int| 0 <= j < k - 1 implies #[trigger] assignments.drop_first()[j].chain_id@ != chain_id by {
                assert(assignments[j + 1].chain_id@ != chain_id);
            }
        }
        lemma_first_assignment_assigned(assignments.drop_first(), chain_id, k - 1);
    }
}

/// A group manager after a chain is taken out of it: with no assignment
/// nothing changes; otherwise its first assignment is dropped and the chain
/// leaves the group that assignment names.
pub open spec fn removed_from_groups(before: GroupManager, after: GroupManager, chain_id: Seq<u8>) -> bool {
    &&& after.next_group_counter == before.next_group_counter
    &&& assigned_group(before.chain_to_group@, chain_id) is None ==> after == before
    &&& forall|i: int|
        #[trigger] first_assignment(before.chain_to_group@, chain_id, i) ==> {
            &&& after.chain_to_group@ == before.chain_to_group@.remove(i)
            &&& chain_left_group(before.groups@, after.groups@, before.chain_to_group@[i].group_id@, chain_id)
        }
}
/// The groups are numbered in creation order: group `k` is named
/// `new_group_id(k)`, and the counter is the number of groups.
pub open spec fn groups_numbered(m: GroupManager) -> bool {
    &&& m.groups@.len() == m.next_group_counter
    &&& forall|k: int| 0 <= k < m.groups@.len() ==> #[trigger] m.groups@[k].group_id@ == new_group_id(k as u32)
}

/// Two groups of a manager whose groups are numbered have different
/// identifiers: the registry holds each group identifier once.
pub proof fn lemma_numbered_group_ids_distinct(m: GroupManager, i: int, j: int)
    requires
        groups_numbered(m),
        0 <= i < j < m.groups@.len(),
    ensures
        m.groups@[i].group_id@ != m.groups@[j].group_id@,
{
    reveal_strlit("group_");
    if m.groups@[i].group_id@ == m.groups@[j].group_id@ {
        let a = zero_padded(decimal(i as u32 as nat), 6);
        let b = zero_padded(decimal(j as u32 as nat), 6);
        assert(a =~= new_group_id(i as u32).subrange(6, new_group_id(i as u32).len() as int));
        assert(b =~= new_group_id(j as u32).subrange(6, new_group_id(j as u32).len() as int));
        lemma_zero_padded_decimal_injective(i as u32 as nat, j as u32 as nat, 6);
    }
}

/// Groups of chains with the assignment of each chain to its group.
pub struct GroupManager {
    /// The groups, in creation order.
    pub groups: Vec<ChainGroup>,
    /// The group of each chain.
    pub chain_to_group: Vec<GroupAssignment>,
    /// Number of groups created.
    pub next_group_counter: u32,
}

impl GroupManager {
    /// No group and no assignment.
    pub fn new() -> (m: GroupManager)
        ensures
            membership_consistent(m),
            groups_numbered(m),
            m.groups@.len() == 0,
            m.chain_to_group@.len() == 0,
            m.next_group_counter == 0,
    {
        GroupManager { groups: Vec::new(), chain_to_group: Vec::new(), next_group_counter: 0 }
    }

    /// Every group holds at most its maximum number of chains.
    pub open spec fn groups_within_limits(&self) -> bool {
        forall|i: int| 0 <= i < self.groups@.len() ==> #[trigger] self.groups@[i].chain_ids@.len()
            <= self.groups@[i].max_chains
    }

    /// Finds the group of a chain.
    fn find_assignment(&self, chain_id: &Vec<u8>) -> (r: Option<usize>)
        ensures
            match r {
                Some(i) => i < self.chain_to_group@.len() && assigned_group(self.chain_to_group@, chain_id@) == Some(
                    self.chain_to_group@[i as int].group_id@,
                ) && self.chain_to_group@[i as int].chain_id@ == chain_id@ && forall|j: int|
                    0 <= j < i ==> #[trigger] self.chain_to_group@[j].chain_id@ != chain_id@,
                None => assigned_group(self.chain_to_group@, chain_id@) is None,
            },
    {
        let mut i: usize = 0;
        assert(self.chain_to_group@.subrange(0, self.chain_to_group@.len() as int) =~= self.chain_to_group@);
        while i < self.chain_to_group.len()
            invariant
                i <= self.chain_to_group@.len(),
                assigned_group(self.chain_to_group@, chain_id@) == assigned_group(
                    self.chain_to_group@.subrange(i as int, self.chain_to_group@.len() as int),
                    chain_id@,
                ),
                forall|j: int| 0 <= j < i ==> #[trigger] self.chain_to_group@[j].chain_id@ != chain_id@,
            decreases self.chain_to_group@.len() - i,
        {
            let ghost rest = self.chain_to_group@.subrange(i as int, self.chain_to_group@.len() as int);
            assert(rest.drop_first() =~= self.chain_to_group@.subrange(i + 1, self.chain_to_group@.len() as int));
            if bytes_equal(self.chain_to_group[i].chain_id.as_slice(), chain_id.as_slice()) {
                return Some(i);
            }
            i = i + 1;
        }
        None
    }

    /// Finds the first group that is not full.
    fn find_open_group(&self) -> (r: Option<usize>)
        ensures
            match r {
                Some(i) => first_open_group(self.groups@) == Some(i as int) && i < self.groups@.len()
                    && self.groups@[i as int].chain_ids@.len() < self.groups@[i as int].max_chains,
                None => first_open_group(self.groups@) is None,
            },
    {
        let mut i: usize = 0;
        while i < self.groups.len()
            invariant
                i <= self.groups@.len(),
                forall|j: int| 0 <= j < i ==> #[trigger] self.groups@[j].chain_ids@.len() >= self.groups@[j].max_chains,
            decreases self.groups@.len() - i,
        {
            if !self.groups[i].is_full() {
                proof {
                    let k = i as int;
                    assert(0 <= k < self.groups@.len() && self.groups@[k].chain_ids@.len() < self.groups@[k].max_chains);
                    let c = choose|c: int|
                        0 <= c < self.groups@.len() && self.groups@[c].chain_ids@.len() < self.groups@[c].max_chains
                            && forall|j: int| 0 <= j < c ==> self.groups@[j].chain_ids@.len() >= self.groups@[j].max_chains;
                    if c < k {
                        assert(self.groups@[c].chain_ids@.len() >= self.groups@[c].max_chains);
                    }
                    if c > k {
                        assert(self.groups@[k].chain_ids@.len() >= self.groups@[k].max_chains);
                    }
                }
                return Some(i);
            }
            i = i + 1;
        }
        None
    }

    /// Assigns a chain to a group and returns the group's identifier.
    ///
    /// A chain already assigned keeps its group. Otherwise it joins the
    /// first group that is not full or, when every group is full, a new
    /// group of `CHAINS_PER_GROUP` chains named after the group counter
    /// (`new_group_id`), which then counts one more.
    pub fn assign_chain_to_group(&mut self, chain_id: Vec<u8>) -> (r: HashChainResult<String>)
        requires
            old(self).next_group_counter < u32::MAX,
        ensures
            r is Ok,
            r matches Ok(id) && assigned_group(final(self).chain_to_group@, chain_id@) == Some(id@),
            membership_consistent(*old(self)) ==> membership_consistent(*final(self)),
            groups_numbered(*old(self)) ==> groups_numbered(*final(self)),
            match assigned_group(old(self).chain_to_group@, chain_id@) {
                Some(g) => r matches Ok(id) && id@ == g && *final(self) == *old(self),
                None => r matches Ok(id) && {
                    &&& final(self).chain_to_group@.len() == old(self).chain_to_group@.len() + 1
                    &&& final(self).chain_to_group@.drop_last() == old(self).chain_to_group@
                    &&& final(self).chain_to_group@.last().chain_id@ == chain_id@
                    &&& final(self).chain_to_group@.last().group_id@ == id@
                    &&& match first_open_group(old(self).groups@) {
                        Some(k) => {
                            &&& id@ == old(self).groups@[k].group_id@
                            &&& final(self).groups@.len() == old(self).groups@.len()
                            &&& final(self).next_group_counter == old(self).next_group_counter
                            &&& byte_views(final(self).groups@[k].chain_ids@) == (if holds_id(
                                old(self).groups@[k].chain_ids@,
                                chain_id@,
                            ) {
                                byte_views(old(self).groups@[k].chain_ids@)
                            } else {
                                byte_views(old(self).groups@[k].chain_ids@).push(chain_id@)
                            })
                            &&& forall|j: int|
                                0 <= j < old(self).groups@.len() && j != k ==> #[trigger] final(self).groups@[j]
                                    == old(self).groups@[j]
                        },
                        None => {
                            &&& id@ == new_group_id(old(self).next_group_counter)
                            &&& final(self).groups@.len() == old(self).groups@.len() + 1
                            &&& final(self).groups@.drop_last() == old(self).groups@
                            &&& final(self).groups@.last().group_id@ == id@
                            &&& final(self).groups@.last().max_chains == CHAINS_PER_GROUP
                            &&& final(self).groups@.last().chain_ids@.len() == 1
                            &&& final(self).groups@.last().chain_ids@[0]@ == chain_id@
                            &&& final(self).next_group_counter == old(self).next_group_counter + 1
                        },
                    }
                },
            },
            old(self).groups_within_limits() ==> final(self).groups_within_limits(),
    {
        match self.find_assignment(&chain_id) {
            Some(i) => {
                return Ok(self.chain_to_group[i].group_id.clone());
            },
            None => {},
        }
        let index = match self.find_open_group() {
            Some(i) => i,
            None => {
                let mut new_group_id = String::from_str("group_");
                let number = format_zero_padded(self.next_group_counter as u64, 6);
                new_group_id.append(number.as_str());
                let new_group = ChainGroup::new(new_group_id, CHAINS_PER_GROUP);
                self.groups.push(new_group);
                self.next_group_counter = self.next_group_counter + 1;
                assert(self.groups@.drop_last() =~= old(self).groups@);
                self.groups.len() - 1
            },
        };
        assert(self.groups@.len() >= old(self).groups@.len());
        assert(forall|j: int| 0 <= j < old(self).groups@.len() ==> #[trigger] self.groups@[j] == old(self).groups@[j]);
        assert(forall|j: int|
            old(self).groups@.len() <= j < self.groups@.len() ==> #[trigger] self.groups@[j].chain_ids@.len() == 0);
        assert(self.chain_to_group@ == old(self).chain_to_group@);
        assert(index < self.groups@.len());
        assert(self.groups@[index as int].chain_ids@.len() < self.groups@[index as int].max_chains);
        let ghost groups_before = self.groups@;
        let mut group = self.groups.remove(index);
        let added = group.add_chain(copy_bytes(chain_id.as_slice()));
        let group_id = group.group_id.clone();
        self.groups.insert(index, group);
        assert(self.groups@ =~= groups_before.update(index as int, self.groups@[index as int]));
        proof {
            let old_ids = groups_before[index as int].chain_ids@;
            if !holds_id(old_ids, chain_id@) {
                assert(byte_views(self.groups@[index as int].chain_ids@) =~= byte_views(old_ids).push(chain_id@));
            }
        }
        match added {
            Ok(()) => {},
            Err(e) => {
                assert(false);
                return Err(e);
            },
        }
        let ghost id_view = chain_id@;
        self.chain_to_group.push(GroupAssignment { chain_id, group_id: group_id.clone() });
        proof {
            assert(self.chain_to_group@.drop_last() =~= old(self).chain_to_group@);
            lemma_assigned_after_push(old(self).chain_to_group@, self.chain_to_group@, id_view);
            if membership_consistent(*old(self)) {
                lemma_assign_keeps_membership(
                    old(self).groups@,
                    old(self).chain_to_group@,
                    groups_before,
                    self.groups@,
                    index as int,
                    self.chain_to_group@,
                    id_view,
                );
            }
        }
        Ok(group_id)
    }

    /// Removes a chain's assignment and takes the chain out of its group.
    /// A chain without assignment changes nothing. Never fails.
    pub fn remove_chain_from_group(&mut self, chain_id: &Vec<u8>) -> (r: HashChainResult<()>)
        ensures
            r is Ok,
            assigned_group(old(self).chain_to_group@, chain_id@) is None ==> *final(self) == *old(self),
            final(self).chain_to_group@.len() <= old(self).chain_to_group@.len(),
            final(self).groups@.len() == old(self).groups@.len(),
            final(self).next_group_counter == old(self).next_group_counter,
            assigned_group(old(self).chain_to_group@, chain_id@) is Some ==> final(self).chain_to_group@.len()
                == old(self).chain_to_group@.len() - 1,
            removed_from_groups(*old(self), *final(self), chain_id@),
            membership_consistent(*old(self)) ==> membership_consistent(*final(self)),
            groups_numbered(*old(self)) ==> groups_numbered(*final(self)),
            forall|j: int|
                0 <= j < final(self).groups@.len() ==> #[trigger] final(self).groups@[j].chain_ids@.len() <= old(
                    self,
                ).groups@[j].chain_ids@.len() && final(self).groups@[j].max_chains == old(self).groups@[j].max_chains,
            old(self).groups_within_limits() ==> final(self).groups_within_limits(),
    {
        let i = match self.find_assignment(chain_id) {
            Some(i) => i,
            None => {
                proof {
                    assert forall|i2: int| #[trigger] first_assignment(old(self).chain_to_group@, chain_id@, i2) implies false by {
                        lemma_first_assignment_assigned(old(self).chain_to_group@, chain_id@, i2);
                    }
                }
                return Ok(());
            },
        };
        let assignment = self.chain_to_group.remove(i);
        proof {
            assert forall|i2: int| #[trigger] first_assignment(old(self).chain_to_group@, chain_id@, i2) implies i2
                == i as int by {
                if i2 < i as int {
                    assert(old(self).chain_to_group@[i2].chain_id@ != chain_id@);
                }
                if (i as int) < i2 {
                    assert(old(self).chain_to_group@[i as int].chain_id@ != chain_id@);
                }
            }
        }
        let mut k: usize = 0;
        while k < self.groups.len()
            invariant
                k <= self.groups@.len(),
                self.groups@ == old(self).groups@,
                self.chain_to_group@ == old(self).chain_to_group@.remove(i as int),
                first_assignment(old(self).chain_to_group@, chain_id@, i as int),
                forall|i2: int| #[trigger] first_assignment(old(self).chain_to_group@, chain_id@, i2) ==> i2 == i as int,
                assignment.group_id@ == old(self).chain_to_group@[i as int].group_id@,
                forall|j: int| 0 <= j < k ==> #[trigger] self.groups@[j].group_id@ != assignment.group_id@,
                self.chain_to_group@.len() == old(self).chain_to_group@.len() - 1,
                self.next_group_counter == old(self).next_group_counter,
                assigned_group(old(self).chain_to_group@, chain_id@) is Some,
            decreases self.groups@.len() - k,
        {
            if self.groups[k].group_id == assignment.group_id {
                let ghost before = self.groups@;
                let mut group = self.groups.remove(k);
                group.remove_chain(chain_id);
                self.groups.insert(k, group);
                assert(self.groups@ =~= before.update(k as int, self.groups@[k as int]));
                proof {
                    let gid = assignment.group_id@;
                    assert(first_group_with_id(before, gid, k as int));
                    assert forall|k2: int| #[trigger] first_group_with_id(before, gid, k2) implies k2 == k as int by {
                        if k2 < k as int {
                            assert(before[k2].group_id@ != gid);
                        }
                        if (k as int) < k2 {
                            assert(before[k as int].group_id@ != gid);
                        }
                    }
                    assert(chain_left_group(before, self.groups@, gid, chain_id@));
                    assert(removed_from_groups(*old(self), *self, chain_id@));
                    if membership_consistent(*old(self)) {
                        lemma_remove_keeps_membership(*old(self), *self, chain_id@);
                    }
                }
                return Ok(());
            }
            k = k + 1;
        }
        proof {
            let gid = assignment.group_id@;
            assert forall|k2: int| #[trigger] first_group_with_id(old(self).groups@, gid, k2) implies false by {
                assert(self.groups@[k2].group_id@ != gid);
            }
            assert(removed_from_groups(*old(self), *self, chain_id@));
            if membership_consistent(*old(self)) {
                lemma_remove_keeps_membership(*old(self), *self, chain_id@);
            }
        }
        Ok(())
    }

    /// The proof each group would get at a block, in order (`group_outcome`).
    fn group_proofs(&self, block_hash: &Vec<u8>, chain_commitments: &Vec<ChainCommitment>) -> (r: Option<Vec<Vec<u8>>>)
        requires
            groups_members_long_enough(self.groups@, chain_commitments@),
        ensures
            match r {
                Some(ps) => ps@.len() == self.groups@.len() && (forall|i: int|
                    0 <= i < ps@.len() ==> group_outcome(self.groups@[i], chain_commitments@, block_hash@) == Some(
                        #[trigger] ps@[i]@,
                    )) && forall|i: int| 0 <= i < ps@.len() ==> #[trigger] ps@[i]@.len() == 32,
                None => exists|i: int|
                    0 <= i < self.groups@.len() && #[trigger] group_outcome(
                        self.groups@[i],
                        chain_commitments@,
                        block_hash@,
                    ) is None,
            },
    {
        let mut proofs: Vec<Vec<u8>> = Vec::new();
        let mut i: usize = 0;
        while i < self.groups.len()
            invariant
                i <= self.groups@.len(),
                groups_members_long_enough(self.groups@, chain_commitments@),
                proofs@.len() == i,
                forall|j: int|
                    0 <= j < i ==> group_outcome(self.groups@[j], chain_commitments@, block_hash@) == Some(
                        #[trigger] proofs@[j]@,
                    ),
                forall|j: int| 0 <= j < i ==> #[trigger] proofs@[j]@.len() == 32,
            decreases self.groups@.len() - i,
        {
            assert(members_long_enough(self.groups@[i as int].chain_ids@, chain_commitments@));
            match self.groups[i].verify_inputs_proof(block_hash, chain_commitments) {
                Some(p) => proofs.push(p),
                None => {
                    return None;
                },
            }
            i = i + 1;
        }
        Some(proofs)
    }

    /// Computes the proof of every group at a block and records it in each
    /// group with the block height. The proofs come back in group order,
    /// with the group identifiers. Where a group misses a member's
    /// commitment, the result is `HierarchicalProofFailed` and no group
    /// changes.
    #[verifier::spinoff_prover]
    pub fn compute_all_group_proofs(
        &mut self,
        block_hash: &Vec<u8>,
        chain_commitments: &Vec<ChainCommitment>,
        block_height: u64,
    ) -> (r: HashChainResult<Vec<NamedProof>>)
        requires
            groups_members_long_enough(old(self).groups@, chain_commitments@),
            table_ids_distinct(chain_commitments@),
        ensures
            (r is Err) <==> exists|i: int|
                0 <= i < old(self).groups@.len() && #[trigger] group_outcome(
                    old(self).groups@[i],
                    chain_commitments@,
                    block_hash@,
                ) is None,
            r is Err ==> (r matches Err(e) && e is HierarchicalProofFailed) && *final(self) == *old(self),
            r matches Ok(ps) ==> {
                &&& ps@.len() == old(self).groups@.len()
                &&& final(self).groups@.len() == old(self).groups@.len()
                &&& final(self).chain_to_group == old(self).chain_to_group
                &&& final(self).next_group_counter == old(self).next_group_counter
                &&& forall|i: int|
                    0 <= i < ps@.len() ==> {
                        &&& #[trigger] ps@[i].id@ == old(self).groups@[i].group_id@
                        &&& group_outcome(old(self).groups@[i], chain_commitments@, block_hash@) == Some(ps@[i].proof@)
                        &&& ps@[i].proof@.len() == 32
                        &&& final(self).groups@[i].group_id@ == old(self).groups@[i].group_id@
                        &&& final(self).groups@[i].max_chains == old(self).groups@[i].max_chains
                        &&& byte_views(final(self).groups@[i].chain_ids@) == byte_views(old(self).groups@[i].chain_ids@)
                        &&& final(self).groups@[i].last_group_proof matches Some(q) && q@ == ps@[i].proof@
                        &&& final(self).groups@[i].last_update_block == block_height
                    }
            },
            membership_consistent(*old(self)) ==> membership_consistent(*final(self)),
            groups_numbered(*old(self)) ==> groups_numbered(*final(self)),
            old(self).groups_within_limits() ==> final(self).groups_within_limits(),
    {
        let proofs = match self.group_proofs(block_hash, chain_commitments) {
            Some(ps) => ps,
            None => {
                return Err(HashChainError::HierarchicalProofFailed {
                    reason: String::from_str("A group proof failed: chain not found"),
                });
            },
        };
        let mut results: Vec<NamedProof> = Vec::new();
        let mut updated: Vec<ChainGroup> = Vec::new();
        let mut i: usize = 0;
        while i < self.groups.len()
            invariant
                i <= self.groups@.len(),
                proofs@.len() == self.groups@.len(),
                results@.len() == i,
                updated@.len() == i,
                self.groups@ == old(self).groups@,
                forall|j: int|
                    0 <= j < proofs@.len() ==> group_outcome(self.groups@[j], chain_commitments@, block_hash@) == Some(
                        #[trigger] proofs@[j]@,
                    ),
                forall|j: int|
                    0 <= j < i ==> #[trigger] results@[j].id@ == self.groups@[j].group_id@ && results@[j].proof@
                        == proofs@[j]@,
                forall|j: int|
                    0 <= j < i ==> {
                        &&& #[trigger] updated@[j].group_id@ == self.groups@[j].group_id@
                        &&& updated@[j].max_chains == self.groups@[j].max_chains
                        &&& byte_views(updated@[j].chain_ids@) == byte_views(self.groups@[j].chain_ids@)
                        &&& updated@[j].last_group_proof matches Some(q) && q@ == proofs@[j]@
                        &&& updated@[j].last_update_block == block_height
                    },
            decreases self.groups@.len() - i,
        {
            let g = &self.groups[i];
            let ghost results_before = results@;
            let ghost updated_before = updated@;
            let named = NamedProof { id: g.group_id.clone(), proof: copy_bytes(proofs[i].as_slice()) };
            results.push(named);
            let new_group = ChainGroup {
                group_id: g.group_id.clone(),
                max_chains: g.max_chains,
                chain_ids: copy_byte_vecs(&g.chain_ids),
                last_group_proof: Some(copy_bytes(proofs[i].as_slice())),
                last_update_block: block_height,
            };
            updated.push(new_group);
            assert forall|j: int| 0 <= j < i + 1 implies #[trigger] results@[j].id@ == self.groups@[j].group_id@
                && results@[j].proof@ == proofs@[j]@ by {
                if j < i {
                    assert(results@[j] == results_before[j]);
                }
            }
            assert forall|j: int| 0 <= j < i + 1 implies {
                &&& #[trigger] updated@[j].group_id@ == self.groups@[j].group_id@
                &&& updated@[j].max_chains == self.groups@[j].max_chains
                &&& byte_views(updated@[j].chain_ids@) == byte_views(self.groups@[j].chain_ids@)
                &&& updated@[j].last_group_proof matches Some(q) && q@ == proofs@[j]@
                &&& updated@[j].last_update_block == block_height
            } by {
                if j < i {
                    assert(updated@[j] == updated_before[j]);
                }
            }
            i = i + 1;
        }
        assert forall|i: int| 0 <= i < old(self).groups@.len() implies !(#[trigger] group_outcome(
            old(self).groups@[i],
            chain_commitments@,
            block_hash@,
        ) is None) by {
            assert(group_outcome(self.groups@[i], chain_commitments@, block_hash@) == Some(proofs@[i]@));
        }
        let ghost upd = updated@;
        self.groups = updated;
        proof {
            assert forall|i: int| 0 <= i < self.groups@.len() implies #[trigger] self.groups@[i].chain_ids@.len()
                <= self.groups@[i].max_chains || !old(self).groups_within_limits() by {
                assert(upd[i].group_id@ == old(self).groups@[i].group_id@);
                if old(self).groups_within_limits() {
                    assert(old(self).groups@[i].chain_ids@.len() <= old(self).groups@[i].max_chains);
                    assert(byte_views(upd[i].chain_ids@).len() == byte_views(old(self).groups@[i].chain_ids@).len());
                }
            }
            assert forall|i: int| 0 <= i < self.groups@.len() implies {
                &&& #[trigger] self.groups@[i].group_id@ == old(self).groups@[i].group_id@
                &&& self.groups@[i].max_chains == old(self).groups@[i].max_chains
                &&& byte_views(self.groups@[i].chain_ids@) == byte_views(old(self).groups@[i].chain_ids@)
                &&& self.groups@[i].last_group_proof matches Some(q) && q@ == proofs@[i]@
                &&& self.groups@[i].last_update_block == block_height
            } by {
                assert(upd[i].group_id@ == old(self).groups@[i].group_id@);
            }
            assert forall|i: int| 0 <= i < results@.len() implies {
                &&& #[trigger] results@[i].id@ == old(self).groups@[i].group_id@
                &&& group_outcome(old(self).groups@[i], chain_commitments@, block_hash@) == Some(results@[i].proof@)
                &&& results@[i].proof@.len() == 32
            } by {
                assert(group_outcome(old(self).groups@[i], chain_commitments@, block_hash@) == Some(proofs@[i]@));
            }
        }
        proof {
            if membership_consistent(*old(self)) {
                lemma_same_members_keeps_membership(old(self).groups@, self.groups@, self.chain_to_group@);
            }
        }
        Ok(results)
    }

    /// Counts of groups and chains.
    pub fn get_statistics(&self) -> (s: GroupStatistics)
        ensures
            s.total_groups == self.groups@.len(),
            s.total_chains == self.chain_to_group@.len(),
            s.non_empty_groups == count_groups(self.groups@, |g: ChainGroup| g.chain_ids@.len() > 0),
            s.full_groups == count_groups(self.groups@, |g: ChainGroup| g.chain_ids@.len() >= g.max_chains),
    {
        let mut non_empty: usize = 0;
        let mut full: usize = 0;
        let mut i: usize = 0;
        while i < self.groups.len()
            invariant
                i <= self.groups@.len(),
                non_empty == count_groups(self.groups@.subrange(0, i as int), |g: ChainGroup| g.chain_ids@.len() > 0),
                full == count_groups(
                    self.groups@.subrange(0, i as int),
                    |g: ChainGroup| g.chain_ids@.len() >= g.max_chains,
                ),
                non_empty <= i,
                full <= i,
            decreases self.groups@.len() - i,
        {
            let ghost prefix = self.groups@.subrange(0, i + 1);
            assert(prefix.drop_last() =~= self.groups@.subrange(0, i as int));
            if self.groups[i].chain_ids.len() > 0 {
                non_empty = non_empty + 1;
            }
            if self.groups[i].is_full() {
                full = full + 1;
            }
            i = i + 1;
        }
        assert(self.groups@.subrange(0, self.groups@.len() as int) =~= self.groups@);
        GroupStatistics {
            total_groups: self.groups.len(),
            total_chains: self.chain_to_group.len(),
            non_empty_groups: non_empty,
            full_groups: full,
        }
    }
}

} // verus!
