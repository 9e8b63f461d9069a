//! Level 2 of the hierarchy: regions of groups, their proofs, and the
//! manager that assigns groups to regions.
use vstd::prelude::*;

use crate::consts::{GROUPS_PER_REGION, REGIONAL_ITERATIONS};
use crate::errors::{HashChainError, HashChainResult};
use crate::groups::{proof_names_distinct, NamedProof};
use crate::header::{zero_hash, zero_hash_bytes};
use crate::ids::{decimal, format_zero_padded, lemma_zero_padded_decimal_injective, zero_padded};
use crate::merkle::{compute_level_proof, compute_merkle_root, leaves_long_enough, level_proof, merkle_root_of};
use crate::seqs::{byte_views, bytes_equal, copy_bytes};

verus! {

/// The texts held by a list of strings.
pub open spec fn string_views(v: Seq<String>) -> Seq<Seq<char>> {
    v.map_values(|s: String| s@)
}

/// The proof a table holds for a group: that of its first entry.
pub open spec fn lookup_proof(table: Seq<NamedProof>, id: Seq<char>) -> Option<Seq<u8>>
    decreases table.len(),
{
    if table.len() == 0 {
        None
    } else if table[0].id@ == id {
        Some(table[0].proof@)
    } else {
        lookup_proof(table.drop_first(), id)
    }
}

/// Whether every proof of a table has at least 32 bytes.
pub open spec fn proofs_long_enough(table: Seq<NamedProof>) -> bool {
    forall|i: int| 0 <= i < table.len() ==> #[trigger] table[i].proof@.len() >= 32
}

/// Whether the proof each listed group has in the table (if any) has at
/// least 32 bytes: the Merkle tree reads the first 32 bytes of each.
pub open spec fn members_proofs_long_enough(ids: Seq<String>, table: Seq<NamedProof>) -> bool {
    forall|i: int|
        0 <= i < ids.len() ==> match lookup_proof(table, #[trigger] ids[i]@) {
            Some(c) => c.len() >= 32,
            None => true,
        }
}

/// Whether every region's groups have long enough proofs in the table.
pub open spec fn regions_members_long_enough(regions: Seq<Region>, table: Seq<NamedProof>) -> bool {
    forall|g: int| 0 <= g < regions.len() ==> members_proofs_long_enough(#[trigger] regions[g].group_ids@, table)
}

/// The proofs of the listed groups, in order, or `None` where one is
/// missing from the table.
pub open spec fn collect_proofs(ids: Seq<String>, table: Seq<NamedProof>) -> Option<Seq<Seq<u8>>>
    decreases ids.len(),
{
    if ids.len() == 0 {
        Some(Seq::empty())
    } else {
        match collect_proofs(ids.drop_last(), table) {
            Some(prev) => match lookup_proof(table, ids.last()@) {
                Some(c) => Some(prev.push(c)),
                None => None,
            },
            None => None,
        }
    }
}

/// The first listed group that the table misses.
pub open spec fn first_missing_group(ids: Seq<String>, table: Seq<NamedProof>) -> Seq<char>
    decreases ids.len(),
{
    if ids.len() == 0 {
        Seq::empty()
    } else if collect_proofs(ids.drop_last(), table) is None {
        first_missing_group(ids.drop_last(), table)
    } else {
        ids.last()@
    }
}

/// Looks a group up in a proof table (`lookup_proof`).
pub fn find_proof<'a>(table: &'a Vec<NamedProof>, id: &String) -> (r: Option<&'a Vec<u8>>)
    ensures
        match r {
            Some(c) => lookup_proof(table@, id@) == Some(c@),
            None => lookup_proof(table@, id@) is None,
        },
        r matches Some(c) ==> exists|i: int| 0 <= i < table@.len() && table@[i].proof@ == c@,
{
    let mut i: usize = 0;
    assert(table@.subrange(0, table@.len() as int) =~= table@);
    while i < table.len()
        invariant
            i <= table@.len(),
            lookup_proof(table@, id@) == lookup_proof(table@.subrange(i as int, table@.len() as int), id@),
        decreases table@.len() - i,
    {
        let ghost rest = table@.subrange(i as int, table@.len() as int);
        assert(rest.drop_first() =~= table@.subrange(i + 1, table@.len() as int));
        if table[i].id == *id {
            return Some(&table[i].proof);
        }
        i = i + 1;
    }
    None
}

/// Once a prefix collects and the next group is missing, the whole list
/// fails on that group.
proof fn lemma_first_missing_group(ids: Seq<String>, table: Seq<NamedProof>, i: nat)
    requires
        i < ids.len(),
        collect_proofs(ids.subrange(0, i as int), table) is Some,
        lookup_proof(table, ids[i as int]@) is None,
    ensures
        collect_proofs(ids, table) is None,
        first_missing_group(ids, table) == ids[i as int]@,
    decreases ids.len(),
{
    if ids.len() == i + 1 {
        assert(ids.drop_last() =~= ids.subrange(0, i as int));
    } else {
        let shorter = ids.drop_last();
        assert(shorter.subrange(0, i as int) =~= ids.subrange(0, i as int));
        lemma_first_missing_group(shorter, table, i);
    }
}

/// Gathers the proofs of the listed groups (`collect_proofs`); where one is
/// missing, the error names it.
fn gather_proofs(ids: &Vec<String>, table: &Vec<NamedProof>) -> (r: Result<Vec<Vec<u8>>, String>)
    requires
        members_proofs_long_enough(ids@, table@),
    ensures
        match r {
            Ok(cs) => collect_proofs(ids@, table@) == Some(byte_views(cs@)) && leaves_long_enough(byte_views(cs@)),
            Err(missing) => collect_proofs(ids@, table@) is None && missing@ == first_missing_group(ids@, table@),
        },
{
    let mut cs: Vec<Vec<u8>> = Vec::new();
    let mut i: usize = 0;
    while i < ids.len()
        invariant
            i <= ids@.len(),
            members_proofs_long_enough(ids@, table@),
            collect_proofs(ids@.subrange(0, i as int), table@) == Some(byte_views(cs@)),
            leaves_long_enough(byte_views(cs@)),
        decreases ids@.len() - i,
    {
        let ghost prefix = ids@.subrange(0, i + 1);
        assert(prefix.drop_last() =~= ids@.subrange(0, i as int));
        match find_proof(table, &ids[i]) {
            Some(c) => {
                let ghost before = byte_views(cs@);
                cs.push(copy_bytes(c.as_slice()));
                assert(byte_views(cs@) =~= before.push(c@));
                assert(leaves_long_enough(byte_views(cs@))) by {
                    assert(c@.len() >= 32) by {
                        assert(lookup_proof(table@, ids@[i as int]@) == Some(c@));
                    }
                    assert forall|j: int| 0 <= j < byte_views(cs@).len() implies #[trigger] byte_views(cs@)[j].len()
                        >= 32 by {
                        if j < before.len() {
                            assert(before[j].len() >= 32);
                        }
                    }
                }
            },
            None => {
                proof {
                    lemma_first_missing_group(ids@, table@, i as nat);
                }
                return Err(ids[i].clone());
            },
        }
        i = i + 1;
    }
    assert(ids@.subrange(0, ids@.len() as int) =~= ids@);
    Ok(cs)
}

/// The proof of a region: 32 zero bytes for no member, else the level proof
/// over the Merkle root of its groups' proofs, with `REGIONAL_ITERATIONS`.
pub open spec fn regional_proof_spec(region_id: Seq<char>, proofs: Seq<Seq<u8>>, block_hash: Seq<u8>) -> Seq<u8> {
    if proofs.len() == 0 {
        zero_hash()
    } else {
        level_proof(block_hash, merkle_root_of(proofs), region_id, REGIONAL_ITERATIONS)
    }
}

/// The identifier reported for a group whose proof is missing: `group_`
/// followed by the group's own identifier.
pub open spec fn missing_group_label(group_id: Seq<char>) -> Seq<char> {
    "group_"@ + group_id
}

/// A region of groups (level 2 of the hierarchy).
pub struct Region {
    /// Region identifier.
    pub region_id: String,
    /// Maximum number of groups.
    pub max_groups: u32,
    /// The groups of the region.
    pub group_ids: Vec<String>,
    /// The last proof computed.
    pub last_regional_proof: Option<Vec<u8>>,
    /// Block of the last proof.
    pub last_update_block: u64,
}

/// Whether a list of identifiers holds `id`.
pub open spec fn holds_name(ids: Seq<String>, id: Seq<char>) -> bool {
    exists|i: int| 0 <= i < ids.len() && #[trigger] ids[i]@ == id
}

/// Whether a list of identifiers holds `id` (exec).
fn contains_name(ids: &Vec<String>, id: &String) -> (found: bool)
    ensures
        found == holds_name(ids@, id@),
{
    let mut i: usize = 0;
    while i < ids.len()
        invariant
            i <= ids@.len(),
            forall|j: int| 0 <= j < i ==> #[trigger] ids@[j]@ != id@,
        decreases ids@.len() - i,
    {
        if ids[i] == *id {
            return true;
        }
        i = i + 1;
    }
    false
}

/// The proof a region gets at a block, or `None` where a group's proof is
/// missing.
pub open spec fn region_outcome(r: Region, table: Seq<NamedProof>, block_hash: Seq<u8>) -> Option<Seq<u8>> {
    match collect_proofs(r.group_ids@, table) {
        Some(ps) => Some(regional_proof_spec(r.region_id@, ps, block_hash)),
        None => None,
    }
}

impl Region {
    /// An empty region.
    pub fn new(region_id: String, max_groups: u32) -> (r: Region)
        ensures
            r.region_id@ == region_id@,
            r.max_groups == max_groups,
            r.group_ids@.len() == 0,
            r.last_regional_proof is None,
            r.last_update_block == 0,
    {
        Region { region_id, max_groups, group_ids: Vec::new(), last_regional_proof: None, last_update_block: 0 }
    }

    /// Whether the region has reached its maximum.
    pub fn is_full(&self) -> (full: bool)
        ensures
            full == (self.group_ids@.len() >= self.max_groups),
    {
        self.group_ids.len() >= self.max_groups as usize
    }

    /// The number of groups (taken modulo 2^32).
    pub fn group_count(&self) -> (n: u32)
        ensures
            n == self.group_ids@.len() as u32,
    {
        self.group_ids.len() as u32
    }

    /// Adds a group: a full region refuses with `RegionFull`; a group
    /// already present is not added twice.
    pub fn add_group(&mut self, group_id: String) -> (r: HashChainResult<()>)
        ensures
            old(self).group_ids@.len() >= old(self).max_groups ==> (r matches Err(e) && e is RegionFull)
                && *final(self) == *old(self),
            old(self).group_ids@.len() < old(self).max_groups ==> r is Ok && string_views(final(self).group_ids@)
                == (if holds_name(old(self).group_ids@, group_id@) {
                string_views(old(self).group_ids@)
            } else {
                string_views(old(self).group_ids@).push(group_id@)
            }),
            final(self).region_id == old(self).region_id,
            final(self).max_groups == old(self).max_groups,
            final(self).last_regional_proof == old(self).last_regional_proof,
            final(self).last_update_block == old(self).last_update_block,
            final(self).group_ids@.len() <= old(self).max_groups || final(self).group_ids@.len() == old(
                self,
            ).group_ids@.len(),
    {
        if self.is_full() {
            return Err(HashChainError::RegionFull { region_id: self.region_id.clone(), max_groups: self.max_groups });
        }
        if !contains_name(&self.group_ids, &group_id) {
            let ghost before = string_views(self.group_ids@);
            self.group_ids.push(group_id);
            assert(string_views(self.group_ids@) =~= before.push(self.group_ids@.last()@));
        }
        Ok(())
    }

    /// Removes every occurrence of a group.
    pub fn remove_group(&mut self, group_id: &String)
        ensures
            string_views(final(self).group_ids@) == string_views(old(self).group_ids@).filter(
                |x: Seq<char>| x != group_id@,
            ),
            final(self).group_ids@.len() <= old(self).group_ids@.len(),
            final(self).region_id == old(self).region_id,
            final(self).max_groups == old(self).max_groups,
            final(self).last_regional_proof == old(self).last_regional_proof,
            final(self).last_update_block == old(self).last_update_block,
    {
        let mut kept: Vec<String> = Vec::new();
        let mut i: usize = 0;
        while i < self.group_ids.len()
            invariant
                i <= self.group_ids@.len(),
                self.group_ids@ == old(self).group_ids@,
                string_views(kept@) == string_views(self.group_ids@.subrange(0, i as int)).filter(
                    |x: Seq<char>| x != group_id@,
                ),
                kept@.len() <= i,
            decreases self.group_ids@.len() - i,
        {
            let ghost prefix = self.group_ids@.subrange(0, i + 1);
            assert(string_views(prefix) =~= string_views(self.group_ids@.subrange(0, i as int)).push(
                self.group_ids@[i as int]@,
            ));
            proof {
                string_views(self.group_ids@.subrange(0, i as int)).lemma_filter_push(
                    self.group_ids@[i as int]@,
                    |x: Seq<char>| x != group_id@,
                );
            }
            if !(self.group_ids[i] == *group_id) {
                let ghost before = string_views(kept@);
                kept.push(self.group_ids[i].clone());
                assert(string_views(kept@) =~= before.push(self.group_ids@[i as int]@));
            }
            i = i + 1;
        }
        assert(self.group_ids@.subrange(0, self.group_ids@.len() as int) =~= self.group_ids@);
        self.group_ids = kept;
    }

    /// The proof this region would get at a block (`region_outcome`), or the
    /// group whose proof is missing.
    fn outcome(&self, block_hash: &Vec<u8>, group_proofs: &Vec<NamedProof>) -> (r: Result<Vec<u8>, String>)
        requires
            members_proofs_long_enough(self.group_ids@, group_proofs@),
        ensures
            match r {
                Ok(p) => region_outcome(*self, group_proofs@, block_hash@) == Some(p@) && p@.len() == 32,
                Err(missing) => region_outcome(*self, group_proofs@, block_hash@) is None && missing@
                    == first_missing_group(self.group_ids@, group_proofs@),
            },
    {
        let proofs = gather_proofs(&self.group_ids, group_proofs)?;
        if proofs.len() == 0 {
            Ok(zero_hash_bytes())
        } else {
            let merkle = compute_merkle_root(&proofs);
            Ok(compute_level_proof(block_hash, &merkle, &self.region_id, REGIONAL_ITERATIONS))
        }
    }

    /// Computes the regional proof at a block (`regional_proof_spec` over the
    /// groups' proofs) and records it with the block height. A group missing
    /// from the table gives `ChainNotFound` naming `group_` and the group,
    /// and leaves the region unchanged.
    pub fn compute_regional_proof(
        &mut self,
        block_hash: &Vec<u8>,
        group_proofs: &Vec<NamedProof>,
        block_height: u64,
    ) -> (r: HashChainResult<Vec<u8>>)
        requires
            members_proofs_long_enough(old(self).group_ids@, group_proofs@),
            proof_names_distinct(group_proofs@),
        ensures
            r matches Ok(p) ==> p@.len() == 32,
            match region_outcome(*old(self), group_proofs@, block_hash@) {
                None => (r matches Err(HashChainError::ChainNotFound { chain_id }) && chain_id@
                    == missing_group_label(first_missing_group(old(self).group_ids@, group_proofs@)))
                    && *final(self) == *old(self),
                Some(p) => (r matches Ok(q) && q@ == p) && (final(self).last_regional_proof matches Some(s) && s@ == p)
                    && final(self).last_update_block == block_height && final(self).region_id == old(self).region_id
                    && final(self).max_groups == old(self).max_groups && final(self).group_ids == old(self).group_ids,
            },
    {
        let proof = match self.outcome(block_hash, group_proofs) {
            Ok(p) => p,
            Err(missing) => {
                let mut label = String::from_str("group_");
                label.append(missing.as_str());
                return Err(HashChainError::ChainNotFound { chain_id: label });
            },
        };
        self.last_regional_proof = Some(copy_bytes(proof.as_slice()));
        self.last_update_block = block_height;
        Ok(proof)
    }

    /// Checks a claimed regional proof: false when a group's proof is
    /// missing, else whether it is the proof the region would get.
    pub fn verify_regional_proof(
        &self,
        block_hash: &Vec<u8>,
        group_proofs: &Vec<NamedProof>,
        expected_proof: &Vec<u8>,
    ) -> (r: HashChainResult<bool>)
        requires
            members_proofs_long_enough(self.group_ids@, group_proofs@),
        ensures
            r matches Ok(b) && b == match region_outcome(*self, group_proofs@, block_hash@) {
                None => false,
                Some(p) => expected_proof@ == p,
            },
    {
        match self.outcome(block_hash, group_proofs) {
            Ok(p) => Ok(bytes_equal(p.as_slice(), expected_proof.as_slice())),
            Err(_) => Ok(false),
        }
    }
}

/// The region a group is assigned to.
pub struct RegionAssignment {
    /// Group identifier.
    pub group_id: String,
    /// Region identifier.
    pub region_id: String,
}

/// The region of a group: that of its first assignment.
pub open spec fn assigned_region(assignments: Seq<RegionAssignment>, group_id: Seq<char>) -> Option<Seq<char>>
    decreases assignments.len(),
{
    if assignments.len() == 0 {
        None
    } else if assignments[0].group_id@ == group_id {
        Some(assignments[0].region_id@)
    } else {
        assigned_region(assignments.drop_first(), group_id)
    }
}

/// Appending an assignment of a group that had none makes it the group's
/// assignment.
proof fn lemma_assigned_region_after_push(
    before: Seq<RegionAssignment>,
    after: Seq<RegionAssignment>,
    group_id: Seq<char>,
)
    requires
        assigned_region(before, group_id) is None,
        after.len() == before.len() + 1,
        after.drop_last() == before,
        after.last().group_id@ == group_id,
    ensures
        assigned_region(after, group_id) == Some(after.last().region_id@),
    decreases before.len(),
{
    if before.len() > 0 {
        assert(after[0] == before[0]);
        assert(after.drop_first().drop_last() =~= before.drop_first());
        lemma_assigned_region_after_push(before.drop_first(), after.drop_first(), group_id);
    }
}

/// The position of the first region that is not full, if any.
pub open spec fn first_open_region(regions: Seq<Region>) -> Option<int> {
    if exists|i: int| 0 <= i < regions.len() && regions[i].group_ids@.len() < regions[i].max_groups {
        Some(
            choose|i: int|
                0 <= i < regions.len() && regions[i].group_ids@.len() < regions[i].max_groups && forall|j: int|
                    0 <= j < i ==> regions[j].group_ids@.len() >= regions[j].max_groups,
        )
    } else {
        None
    }
}

/// The identifier of the region created as number `n`: `region_` and `n`
/// zero-padded to three digits.
pub open spec fn new_region_id(n: u32) -> Seq<char> {
    "region_"@ + zero_padded(decimal(n as nat), 3)
}

/// The regions are numbered in creation order: region `k` is named
/// `new_region_id(k)`, and the counter is the number of regions.
pub open spec fn regions_numbered(m: RegionManager) -> bool {
    &&& m.regions@.len() == m.next_region_counter
    &&& forall|k: int| 0 <= k < m.regions@.len() ==> #[trigger] m.regions@[k].region_id@ == new_region_id(k as u32)
}

/// Two regions of a manager whose regions are numbered have different
/// identifiers: the registry holds each region identifier once.
pub proof fn lemma_numbered_region_ids_distinct(m: RegionManager, i: int, j: int)
    requires
        regions_numbered(m),
        0 <= i < j < m.regions@.len(),
    ensures
        m.regions@[i].region_id@ != m.regions@[j].region_id@,
{
    reveal_strlit("region_");
    if m.regions@[i].region_id@ == m.regions@[j].region_id@ {
        let a = zero_padded(decimal(i as u32 as nat), 3);
        let b = zero_padded(decimal(j as u32 as nat), 3);
        assert(a =~= new_region_id(i as u32).subrange(7, new_region_id(i as u32).len() as int));
        assert(b =~= new_region_id(j as u32).subrange(7, new_region_id(j as u32).len() as int));
        lemma_zero_padded_decimal_injective(i as u32 as nat, j as u32 as nat, 3);
    }
}

/// `k` is the first position of an assignment of the group.
pub open spec fn first_region_assignment(assignments: Seq<RegionAssignment>, group_id: Seq<char>, k: int) -> bool {
    &&& 0 <= k < assignments.len()
    &&& assignments[k].group_id@ == group_id
    &&& forall|j: int| 0 <= j < k ==> #[trigger] assignments[j].group_id@ != group_id
}

/// `k` is the first position of a region with this identifier.
pub open spec fn first_region_with_id(regions: Seq<Region>, region_id: Seq<char>, k: int) -> bool {
    &&& 0 <= k < regions.len()
    &&& regions[k].region_id@ == region_id
    &&& forall|j: int| 0 <= j < k ==> #[trigger] regions[j].region_id@ != region_id
}

/// The regions after a group leaves the region `region_id`: the first
/// region of that identifier loses the group, every other region stays;
/// with no such region nothing changes.
pub open spec fn group_left_region(
    before: Seq<Region>,
    after: Seq<Region>,
    region_id: Seq<char>,
    group_id: Seq<char>,
) -> bool {
    &&& after.len() == before.len()
    &&& (forall|k: int| 0 <= k < before.len() ==> #[trigger] before[k].region_id@ != region_id) ==> after == before
    &&& forall|k: int|
        #[trigger] first_region_with_id(before, region_id, k) ==> {
            &&& string_views(after[k].group_ids@) == string_views(before[k].group_ids@).filter(
                |x: Seq<char>| x != group_id,
            )
            &&& after[k].region_id == before[k].region_id
            &&& after[k].max_groups == before[k].max_groups
            &&& after[k].last_regional_proof == before[k].last_regional_proof
            &&& after[k].last_update_block == before[k].last_update_block
            &&& forall|j: int| 0 <= j < before.len() && j != k ==> #[trigger] after[j] == before[j]
        }
}

/// The first assignment of a group names its region.
proof fn lemma_first_region_assignment_assigned(assignments: Seq<RegionAssignment>, group_id: Seq<char>, k: int)
    requires
        first_region_assignment(assignments, group_id, k),
    ensures
        assigned_region(assignments, group_id) == Some(assignments[k].region_id@),
    decreases k,
{
    if k > 0 {
        assert(assignments[0].group_id@ != group_id);
        assert(first_region_assignment(assignments.drop_first(), group_id, k - 1)) by {
            assert forall|j: int| 0 <= j < k - 1 implies #[trigger] assignments.drop_first()[j].group_id@ != group_id by {
                assert(assignments[j + 1].group_id@ != group_id);
            }
        }
        lemma_first_region_assignment_assigned(assignments.drop_first(), group_id, k - 1);
    }
}

/// Regions of groups with the assignment of each group to its region.
pub struct RegionManager {
    /// The regions, in creation order.
    pub regions: Vec<Region>,
    /// The region of each group.
    pub group_to_region: Vec<RegionAssignment>,
    /// Number of regions created.
    pub next_region_counter: u32,
}

/// A region manager after a group is taken out of it: with no assignment
/// nothing changes; otherwise its first assignment is dropped and the group
/// leaves the region that assignment names.
pub open spec fn removed_from_regions(before: RegionManager, after: RegionManager, group_id: Seq<char>) -> bool {
    &&& after.next_region_counter == before.next_region_counter
    &&& assigned_region(before.group_to_region@, group_id) is None ==> after == before
    &&& forall|i: int|
        #[trigger] first_region_assignment(before.group_to_region@, group_id, i) ==> {
            &&& after.group_to_region@ == before.group_to_region@.remove(i)
            &&& group_left_region(before.regions@, after.regions@, before.group_to_region@[i].region_id@, group_id)
        }
}

impl RegionManager {
    /// No region and no assignment.
    pub fn new() -> (m: RegionManager)
        ensures
            m.regions@.len() == 0,
            m.group_to_region@.len() == 0,
            m.next_region_counter == 0,
            regions_numbered(m),
    {
        RegionManager { regions: Vec::new(), group_to_region: Vec::new(), next_region_counter: 0 }
    }

    /// Every region holds at most its maximum number of groups.
    pub open spec fn regions_within_limits(&self) -> bool {
        forall|i: int| 0 <= i < self.regions@.len() ==> #[trigger] self.regions@[i].group_ids@.len()
            <= self.regions@[i].max_groups
    }

    /// Finds the region of a group.
    fn find_assignment(&self, group_id: &String) -> (r: Option<usize>)
        ensures
            match r {
                Some(i) => i < self.group_to_region@.len() && assigned_region(self.group_to_region@, group_id@) == Some(
                    self.group_to_region@[i as int].region_id@,
                ) && first_region_assignment(self.group_to_region@, group_id@, i as int),
                None => assigned_region(self.group_to_region@, group_id@) is None,
            },
    {
        let mut i: usize = 0;
        assert(self.group_to_region@.subrange(0, self.group_to_region@.len() as int) =~= self.group_to_region@);
        while i < self.group_to_region.len()
            invariant
                i <= self.group_to_region@.len(),
                assigned_region(self.group_to_region@, group_id@) == assigned_region(
                    self.group_to_region@.subrange(i as int, self.group_to_region@.len() as int),
                    group_id@,
                ),
                forall|j: int| 0 <= j < i ==> #[trigger] self.group_to_region@[j].group_id@ != group_id@,
            decreases self.group_to_region@.len() - i,
        {
            let ghost rest = self.group_to_region@.subrange(i as int, self.group_to_region@.len() as int);
            assert(rest.drop_first() =~= self.group_to_region@.subrange(i + 1, self.group_to_region@.len() as int));
            if self.group_to_region[i].group_id == *group_id {
                return Some(i);
            }
            i = i + 1;
        }
        None
    }

    /// Finds the first region that is not full.
    fn find_open_region(&self) -> (r: Option<usize>)
        ensures
            match r {
                Some(i) => first_open_region(self.regions@) == Some(i as int) && i < self.regions@.len()
                    && self.regions@[i as int].group_ids@.len() < self.regions@[i as int].max_groups,
                None => first_open_region(self.regions@) is None,
            },
    {
        let mut i: usize = 0;
        while i < self.regions.len()
            invariant
                i <= self.regions@.len(),
                forall|j: int| 0 <= j < i ==> #[trigger] self.regions@[j].group_ids@.len() >= self.regions@[j].max_groups,
            decreases self.regions@.len() - i,
        {
            if !self.regions[i].is_full() {
                proof {
                    let k = i as int;
                    let c = choose|c: int|
                        0 <= c < self.regions@.len() && self.regions@[c].group_ids@.len() < self.regions@[c].max_groups
                            && forall|j: int| 0 <= j < c ==> self.regions@[j].group_ids@.len() >= self.regions@[j].max_groups;
                    if c < k {
                        assert(self.regions@[c].group_ids@.len() >= self.regions@[c].max_groups);
                    }
                    if c > k {
                        assert(self.regions@[k].group_ids@.len() >= self.regions@[k].max_groups);
                    }
                }
                return Some(i);
            }
            i = i + 1;
        }
        None
    }

    /// Assigns a group to a region and returns the region's identifier.
    ///
    /// A group already assigned keeps its region. Otherwise it joins the
    /// first region that is not full or, when every region is full, a new
    /// region of `GROUPS_PER_REGION` groups named after the region counter
    /// (`new_region_id`), which then counts one more.
    pub fn assign_group_to_region(&mut self, group_id: String) -> (r: HashChainResult<String>)
        requires
            old(self).next_region_counter < u32::MAX,
        ensures
            r is Ok,
            r matches Ok(id) && assigned_region(final(self).group_to_region@, group_id@) == Some(id@),
            match assigned_region(old(self).group_to_region@, group_id@) {
                Some(g) => r matches Ok(id) && id@ == g && *final(self) == *old(self),
                None => r matches Ok(id) && {
                    &&& final(self).group_to_region@.len() == old(self).group_to_region@.len() + 1
                    &&& final(self).group_to_region@.drop_last() == old(self).group_to_region@
                    &&& final(self).group_to_region@.last().group_id@ == group_id@
                    &&& final(self).group_to_region@.last().region_id@ == id@
                    &&& match first_open_region(old(self).regions@) {
                        Some(k) => {
                            &&& id@ == old(self).regions@[k].region_id@
                            &&& final(self).regions@.len() == old(self).regions@.len()
                            &&& final(self).next_region_counter == old(self).next_region_counter
                            &&& string_views(final(self).regions@[k].group_ids@) == (if holds_name(
                                old(self).regions@[k].group_ids@,
                                group_id@,
                            ) {
                                string_views(old(self).regions@[k].group_ids@)
                            } else {
                                string_views(old(self).regions@[k].group_ids@).push(group_id@)
                            })
                            &&& forall|j: int|
                                0 <= j < old(self).regions@.len() && j != k ==> #[trigger] final(self).regions@[j]
                                    == old(self).regions@[j]
                        },
                        None => {
                            &&& id@ == new_region_id(old(self).next_region_counter)
                            &&& final(self).regions@.len() == old(self).regions@.len() + 1
                            &&& final(self).regions@.drop_last() == old(self).regions@
                            &&& final(self).regions@.last().region_id@ == id@
                            &&& final(self).regions@.last().max_groups == GROUPS_PER_REGION
                            &&& final(self).regions@.last().group_ids@.len() == 1
                            &&& final(self).regions@.last().group_ids@[0]@ == group_id@
                            &&& final(self).next_region_counter == old(self).next_region_counter + 1
                        },
                    }
                },
            },
            old(self).regions_within_limits() ==> final(self).regions_within_limits(),
            regions_numbered(*old(self)) ==> regions_numbered(*final(self)),
    {
        match self.find_assignment(&group_id) {
            Some(i) => {
                return Ok(self.group_to_region[i].region_id.clone());
            },
            None => {},
        }
        let index = match self.find_open_region() {
            Some(i) => i,
            None => {
                let mut new_region_id = String::from_str("region_");
                let number = format_zero_padded(self.next_region_counter as u64, 3);
                new_region_id.append(number.as_str());
                let new_region = Region::new(new_region_id, GROUPS_PER_REGION);
                self.regions.push(new_region);
                self.next_region_counter = self.next_region_counter + 1;
                self.regions.len() - 1
            },
        };
        assert(index < self.regions@.len());
        assert(self.regions@[index as int].group_ids@.len() < self.regions@[index as int].max_groups);
        let ghost regions_before = self.regions@;
        let mut region = self.regions.remove(index);
        let added = region.add_group(group_id.clone());
        let region_id = region.region_id.clone();
        self.regions.insert(index, region);
        assert(self.regions@ =~= regions_before.update(index as int, self.regions@[index as int]));
        proof {
            let ids = self.regions@[index as int].group_ids@;
            assert(string_views(ids).len() == ids.len());
            if ids.len() > 0 {
                assert(string_views(ids)[0] == ids[0]@);
            }
        }
        match added {
            Ok(()) => {},
            Err(e) => {
                assert(false);
                return Err(e);
            },
        }
        let ghost id_view = group_id@;
        self.group_to_region.push(RegionAssignment { group_id, region_id: region_id.clone() });
        proof {
            assert(self.group_to_region@.drop_last() =~= old(self).group_to_region@);
            lemma_assigned_region_after_push(old(self).group_to_region@, self.group_to_region@, id_view);
        }
        Ok(region_id)
    }

    /// Removes a group's assignment and takes the group out of its region.
    /// A group without assignment changes nothing. Never fails.
    pub fn remove_group_from_region(&mut self, group_id: &String) -> (r: HashChainResult<()>)
        ensures
            r is Ok,
            assigned_region(old(self).group_to_region@, group_id@) is None ==> *final(self) == *old(self),
            assigned_region(old(self).group_to_region@, group_id@) is Some ==> final(self).group_to_region@.len()
                == old(self).group_to_region@.len() - 1,
            removed_from_regions(*old(self), *final(self), group_id@),
            final(self).regions@.len() == old(self).regions@.len(),
            final(self).next_region_counter == old(self).next_region_counter,
            forall|j: int|
                0 <= j < final(self).regions@.len() ==> #[trigger] final(self).regions@[j].group_ids@.len() <= old(
                    self,
                ).regions@[j].group_ids@.len() && final(self).regions@[j].max_groups == old(self).regions@[j].max_groups,
            old(self).regions_within_limits() ==> final(self).regions_within_limits(),
            regions_numbered(*old(self)) ==> regions_numbered(*final(self)),
    {
        let i = match self.find_assignment(group_id) {
            Some(i) => i,
            None => {
                proof {
                    assert forall|i2: int| #[trigger] first_region_assignment(old(self).group_to_region@, group_id@, i2) implies false by {
                        lemma_first_region_assignment_assigned(old(self).group_to_region@, group_id@, i2);
                    }
                }
                return Ok(());
            },
        };
        let assignment = self.group_to_region.remove(i);
        proof {
            assert forall|i2: int| #[trigger] first_region_assignment(old(self).group_to_region@, group_id@, i2) implies i2
                == i as int by {
                if i2 < i as int {
                    assert(old(self).group_to_region@[i2].group_id@ != group_id@);
                }
                if (i as int) < i2 {
                    assert(old(self).group_to_region@[i as int].group_id@ != group_id@);
                }
            }
        }
        let mut k: usize = 0;
        while k < self.regions.len()
            invariant
                k <= self.regions@.len(),
                self.regions@ == old(self).regions@,
                self.group_to_region@ == old(self).group_to_region@.remove(i as int),
                first_region_assignment(old(self).group_to_region@, group_id@, i as int),
                forall|i2: int|
                    #[trigger] first_region_assignment(old(self).group_to_region@, group_id@, i2) ==> i2 == i as int,
                assignment.region_id@ == old(self).group_to_region@[i as int].region_id@,
                forall|j: int| 0 <= j < k ==> #[trigger] self.regions@[j].region_id@ != assignment.region_id@,
                self.group_to_region@.len() == old(self).group_to_region@.len() - 1,
                self.next_region_counter == old(self).next_region_counter,
                assigned_region(old(self).group_to_region@, group_id@) is Some,
            decreases self.regions@.len() - k,
        {
            if self.regions[k].region_id == assignment.region_id {
                let ghost before = self.regions@;
                let mut region = self.regions.remove(k);
                region.remove_group(group_id);
                self.regions.insert(k, region);
                assert(self.regions@ =~= before.update(k as int, self.regions@[k as int]));
                proof {
                    let rid = assignment.region_id@;
                    assert(first_region_with_id(before, rid, k as int));
                    assert forall|k2: int| #[trigger] first_region_with_id(before, rid, k2) implies k2 == k as int by {
                        if k2 < k as int {
                            assert(before[k2].region_id@ != rid);
                        }
                        if (k as int) < k2 {
                            assert(before[k as int].region_id@ != rid);
                        }
                    }
                    assert(group_left_region(before, self.regions@, rid, group_id@));
                }
                return Ok(());
            }
            k = k + 1;
        }
        proof {
            let rid = assignment.region_id@;
            assert forall|k2: int| #[trigger] first_region_with_id(old(self).regions@, rid, k2) implies false by {
                assert(self.regions@[k2].region_id@ != rid);
            }
        }
        Ok(())
    }

    /// Computes the proof of every region at a block and records it in each
    /// region with the block height. The proofs come back in region order.
    /// Where a region misses a group's proof, the result is
    /// `HierarchicalProofFailed` and no region changes.
    pub fn compute_all_regional_proofs(
        &mut self,
        block_hash: &Vec<u8>,
        group_proofs: &Vec<NamedProof>,
        block_height: u64,
    ) -> (r: HashChainResult<Vec<NamedProof>>)
        requires
            regions_members_long_enough(old(self).regions@, group_proofs@),
            proof_names_distinct(group_proofs@),
        ensures
            (r is Err) <==> exists|i: int|
                0 <= i < old(self).regions@.len() && #[trigger] region_outcome(
                    old(self).regions@[i],
                    group_proofs@,
                    block_hash@,
                ) is None,
            r is Err ==> (r matches Err(e) && e is HierarchicalProofFailed) && *final(self) == *old(self),
            r matches Ok(ps) ==> {
                &&& ps@.len() == old(self).regions@.len()
                &&& final(self).regions@.len() == old(self).regions@.len()
                &&& final(self).group_to_region == old(self).group_to_region
                &&& final(self).next_region_counter == old(self).next_region_counter
                &&& forall|i: int|
                    0 <= i < ps@.len() ==> {
                        &&& #[trigger] ps@[i].id@ == old(self).regions@[i].region_id@
                        &&& region_outcome(old(self).regions@[i], group_proofs@, block_hash@) == Some(ps@[i].proof@)
                        &&& ps@[i].proof@.len() == 32
                        &&& final(self).regions@[i].region_id@ == old(self).regions@[i].region_id@
                        &&& final(self).regions@[i].max_groups == old(self).regions@[i].max_groups
                        &&& string_views(final(self).regions@[i].group_ids@) == string_views(
                            old(self).regions@[i].group_ids@,
                        )
                        &&& final(self).regions@[i].last_regional_proof matches Some(q) && q@ == ps@[i].proof@
                        &&& final(self).regions@[i].last_update_block == block_height
                    }
            },
            regions_numbered(*old(self)) ==> regions_numbered(*final(self)),
    {
        let mut proofs: Vec<Vec<u8>> = Vec::new();
        let mut i: usize = 0;
        while i < self.regions.len()
            invariant
                i <= self.regions@.len(),
                regions_members_long_enough(self.regions@, group_proofs@),
                proofs@.len() == i,
                forall|j: int|
                    0 <= j < i ==> region_outcome(self.regions@[j], group_proofs@, block_hash@) == Some(
                        #[trigger] proofs@[j]@,
                    ),
                forall|j: int| 0 <= j < i ==> #[trigger] proofs@[j]@.len() == 32,
            decreases self.regions@.len() - i,
        {
            assert(members_proofs_long_enough(self.regions@[i as int].group_ids@, group_proofs@));
            match self.regions[i].outcome(block_hash, group_proofs) {
                Ok(p) => proofs.push(p),
                Err(_) => {
                    assert(region_outcome(self.regions@[i as int], group_proofs@, block_hash@) is None);
                    return Err(HashChainError::HierarchicalProofFailed {
                        reason: String::from_str("A regional proof failed: group not found"),
                    });
                },
            }
            i = i + 1;
        }
        let mut results: Vec<NamedProof> = Vec::new();
        let mut updated: Vec<Region> = Vec::new();
        let mut i: usize = 0;
        while i < self.regions.len()
            invariant
                i <= self.regions@.len(),
                proofs@.len() == self.regions@.len(),
                forall|j: int| 0 <= j < proofs@.len() ==> #[trigger] proofs@[j]@.len() == 32,
                results@.len() == i,
                updated@.len() == i,
                self.regions@ == old(self).regions@,
                forall|j: int|
                    0 <= j < proofs@.len() ==> region_outcome(self.regions@[j], group_proofs@, block_hash@) == Some(
                        #[trigger] proofs@[j]@,
                    ),
                forall|j: int|
                    0 <= j < i ==> #[trigger] results@[j].id@ == self.regions@[j].region_id@ && results@[j].proof@
                        == proofs@[j]@,
                forall|j: int|
                    0 <= j < i ==> {
                        &&& #[trigger] updated@[j].region_id@ == self.regions@[j].region_id@
                        &&& updated@[j].max_groups == self.regions@[j].max_groups
                        &&& string_views(updated@[j].group_ids@) == string_views(self.regions@[j].group_ids@)
                        &&& updated@[j].last_regional_proof matches Some(q) && q@ == proofs@[j]@
                        &&& updated@[j].last_update_block == block_height
                    },
            decreases self.regions@.len() - i,
        {
            let g = &self.regions[i];
            let ghost results_before = results@;
            let ghost updated_before = updated@;
            results.push(NamedProof { id: g.region_id.clone(), proof: copy_bytes(proofs[i].as_slice()) });
            let ids = copy_strings(&g.group_ids);
            updated.push(Region {
                region_id: g.region_id.clone(),
                max_groups: g.max_groups,
                group_ids: ids,
                last_regional_proof: Some(copy_bytes(proofs[i].as_slice())),
                last_update_block: block_height,
            });
            assert forall|j: int| 0 <= j < i + 1 implies #[trigger] results@[j].id@ == self.regions@[j].region_id@
                && results@[j].proof@ == proofs@[j]@ by {
                if j < i {
                    assert(results@[j] == results_before[j]);
                }
            }
            assert forall|j: int| 0 <= j < i + 1 implies {
                &&& #[trigger] updated@[j].region_id@ == self.regions@[j].region_id@
                &&& updated@[j].max_groups == self.regions@[j].max_groups
                &&& string_views(updated@[j].group_ids@) == string_views(self.regions@[j].group_ids@)
                &&& updated@[j].last_regional_proof matches Some(q) && q@ == proofs@[j]@
                &&& updated@[j].last_update_block == block_height
            } by {
                if j < i {
                    assert(updated@[j] == updated_before[j]);
                }
            }
            i = i + 1;
        }
        assert forall|i: int| 0 <= i < old(self).regions@.len() implies !(#[trigger] region_outcome(
            old(self).regions@[i],
            group_proofs@,
            block_hash@,
        ) is None) by {
            assert(region_outcome(self.regions@[i], group_proofs@, block_hash@) == Some(proofs@[i]@));
        }
        let ghost upd = updated@;
        self.regions = updated;
        proof {
            assert forall|i: int| 0 <= i < self.regions@.len() implies {
                &&& #[trigger] self.regions@[i].region_id@ == old(self).regions@[i].region_id@
                &&& self.regions@[i].max_groups == old(self).regions@[i].max_groups
                &&& string_views(self.regions@[i].group_ids@) == string_views(old(self).regions@[i].group_ids@)
                &&& self.regions@[i].last_regional_proof matches Some(q) && q@ == proofs@[i]@
                &&& self.regions@[i].last_update_block == block_height
            } by {
                assert(upd[i].region_id@ == old(self).regions@[i].region_id@);
            }
        }
        Ok(results)
    }
}

/// Copies a list of strings.
pub fn copy_strings(v: &Vec<String>) -> (r: Vec<String>)
    ensures
        string_views(r@) == string_views(v@),
{
    let mut r: Vec<String> = Vec::new();
    let mut i: usize = 0;
    while i < v.len()
        invariant
            i <= v@.len(),
            r@.len() == i,
            string_views(r@) =~= string_views(v@.subrange(0, i as int)),
        decreases v@.len() - i,
    {
        let ghost before = r@;
        r.push(v[i].clone());
        assert forall|j: int| 0 <= j < i + 1 implies #[trigger] string_views(r@)[j] == string_views(
            v@.subrange(0, i + 1),
        )[j] by {
            if j < i {
                assert(r@[j] == before[j]);
                assert(string_views(before)[j] == string_views(v@.subrange(0, i as int))[j]);
            }
        }
        assert(string_views(r@) =~= string_views(v@.subrange(0, i + 1)));
        i = i + 1;
    }
    assert(v@.subrange(0, v@.len() as int) =~= v@);
    r
}

} // verus!
