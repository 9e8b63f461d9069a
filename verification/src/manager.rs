//! The manager of many chains: registers chains, places them in groups and
//! regions, and moves every chain forward at each block.
use vstd::prelude::*;

use crate::bytes::{be64, u64_to_be_bytes};
use crate::consts::CHAINS_PER_GROUP;
use crate::crypto::{bytes_to_hex, hex_encode_spec, sha256, sha256_spec};
use crate::errors::{HashChainError, HashChainResult};
use crate::groups::{assigned_group, groups_numbered, membership_consistent, removed_from_groups, GroupManager};
use crate::header::{zero_hash, zero_hash_bytes};
use crate::regions::{assigned_region, regions_numbered, RegionManager};
use crate::seqs::{append_bytes, bytes_equal, copy_bytes};
use crate::types::LightweightHashChain;

verus! {

/// The identifier the manager gives a chain: the first 16 bytes of its
/// owner's key (the whole key when shorter).
pub open spec fn registry_chain_id(public_key: Seq<u8>) -> Seq<u8> {
    if public_key.len() <= 16 {
        public_key
    } else {
        public_key.subrange(0, 16)
    }
}

/// The commitment a chain gets at a block: SHA-256 of its identifier, the
/// block hash and the height (big-endian).
pub open spec fn block_commitment_spec(chain_id: Seq<u8>, block_hash: Seq<u8>, block_height: u64) -> Seq<u8> {
    sha256_spec(chain_id + block_hash + be64(block_height))
}

/// `i` is the first position of a chain in the registry.
pub open spec fn first_registered(registry: Seq<LightweightHashChain>, chain_id: Seq<u8>, i: int) -> bool {
    &&& 0 <= i < registry.len()
    &&& registry[i].chain_id@ == chain_id
    &&& forall|j: int| 0 <= j < i ==> #[trigger] registry[j].chain_id@ != chain_id
}

/// Whether a registry holds a chain of this key, or a chain whose
/// identifier is that of this key.
pub open spec fn key_taken(registry: Seq<LightweightHashChain>, public_key: Seq<u8>) -> bool {
    exists|i: int|
        0 <= i < registry.len() && (#[trigger] registry[i].public_key@ == public_key || registry[i].chain_id@
            == registry_chain_id(public_key))
}

/// The entry a newly added chain gets: identifier `registry_chain_id` of
/// the key, 1000 chunks, no commitment, length 0, height 0, a zero block
/// hash, no encoding and scores of 1.0.
pub open spec fn fresh_registry_entry(e: LightweightHashChain, public_key: Seq<u8>, data_file_path: Seq<char>) -> bool {
    &&& e.chain_id@ == registry_chain_id(public_key)
    &&& e.public_key@ == public_key
    &&& e.data_file_path@ == data_file_path
    &&& e.total_chunks == 1000
    &&& e.current_commitment is None
    &&& e.chain_length == 0
    &&& e.initial_block_height == 0
    &&& e.initial_block_hash@ == zero_hash()
    &&& e.file_encoding is None
    &&& e.availability_score_bits == 0x3FF0_0000_0000_0000
    &&& e.latency_score_bits == 0x3FF0_0000_0000_0000
}

/// What adding a chain reports.
pub struct AddChainOutcome {
    /// The chain's identifier.
    pub chain_id: Vec<u8>,
    /// Its group.
    pub group_id: String,
    /// The region of its group.
    pub region_id: String,
}

/// What removing a chain reports.
pub struct RemoveChainOutcome {
    /// The chain's identifier.
    pub chain_id: Vec<u8>,
    /// Whether its data is archived.
    pub archived: bool,
    /// The reason given, or `removed`.
    pub reason: String,
}

/// Counts of the manager.
pub struct ManagerStatistics {
    /// Number of active chains.
    pub active_chains: u32,
    /// Number of groups.
    pub total_groups: usize,
    /// Number of regions.
    pub total_regions: usize,
}

/// Manages the chains of the hierarchy.
pub struct HierarchicalGlobalChainManager {
    /// Number of hierarchy levels.
    pub hierarchy_levels: u32,
    /// Chains per group.
    pub chains_per_group: u32,
    /// The groups.
    pub group_manager: GroupManager,
    /// The regions.
    pub region_manager: RegionManager,
    /// The registered chains, one entry per identifier.
    pub chain_registry: Vec<LightweightHashChain>,
    /// Number of active chains.
    pub active_chains: u32,
}

/// The first `n` bytes of `v` (all of them when shorter).
fn prefix_bytes(v: &Vec<u8>, n: usize) -> (r: Vec<u8>)
    ensures
        r@ == (if v@.len() <= n {
            v@
        } else {
            v@.subrange(0, n as int)
        }),
{
    let end = if v.len() <= n { v.len() } else { n };
    let mut r: Vec<u8> = Vec::new();
    let mut i: usize = 0;
    while i < end
        invariant
            end <= v@.len(),
            i <= end,
            r@ =~= v@.subrange(0, i as int),
        decreases end - i,
    {
        r.push(v[i]);
        i = i + 1;
    }
    assert(v@.subrange(0, v@.len() as int) =~= v@);
    r
}

impl HierarchicalGlobalChainManager {
    /// An empty manager.
    pub fn new(hierarchy_levels: u32, chains_per_group: u32) -> (m: HierarchicalGlobalChainManager)
        ensures
            m.hierarchy_levels == hierarchy_levels,
            m.chains_per_group == chains_per_group,
            m.group_manager.groups@.len() == 0,
            m.group_manager.chain_to_group@.len() == 0,
            m.group_manager.next_group_counter == 0,
            membership_consistent(m.group_manager),
            groups_numbered(m.group_manager),
            m.region_manager.regions@.len() == 0,
            m.region_manager.group_to_region@.len() == 0,
            m.region_manager.next_region_counter == 0,
            regions_numbered(m.region_manager),
            m.chain_registry@.len() == 0,
            m.active_chains == 0,
    {
        HierarchicalGlobalChainManager {
            hierarchy_levels,
            chains_per_group,
            group_manager: GroupManager::new(),
            region_manager: RegionManager::new(),
            chain_registry: Vec::new(),
            active_chains: 0,
        }
    }

    /// The position of a chain in the registry.
    fn find_chain(&self, chain_id: &Vec<u8>) -> (r: Option<usize>)
        ensures
            match r {
                Some(i) => first_registered(self.chain_registry@, chain_id@, i as int),
                None => forall|i: int|
                    0 <= i < self.chain_registry@.len() ==> #[trigger] self.chain_registry@[i].chain_id@ != chain_id@,
            },
    {
        let mut i: usize = 0;
        while i < self.chain_registry.len()
            invariant
                i <= self.chain_registry@.len(),
                forall|j: int| 0 <= j < i ==> #[trigger] self.chain_registry@[j].chain_id@ != chain_id@,
            decreases self.chain_registry@.len() - i,
        {
            if bytes_equal(self.chain_registry[i].chain_id.as_slice(), chain_id.as_slice()) {
                return Some(i);
            }
            i = i + 1;
        }
        None
    }

    /// Whether a registered chain has this key or the identifier of this key.
    fn key_taken_exec(&self, public_key: &Vec<u8>, chain_id: &Vec<u8>) -> (taken: bool)
        requires
            chain_id@ == registry_chain_id(public_key@),
        ensures
            taken == key_taken(self.chain_registry@, public_key@),
    {
        let mut i: usize = 0;
        while i < self.chain_registry.len()
            invariant
                i <= self.chain_registry@.len(),
                chain_id@ == registry_chain_id(public_key@),
                forall|j: int|
                    0 <= j < i ==> !(#[trigger] self.chain_registry@[j].public_key@ == public_key@
                        || self.chain_registry@[j].chain_id@ == chain_id@),
            decreases self.chain_registry@.len() - i,
        {
            if bytes_equal(self.chain_registry[i].public_key.as_slice(), public_key.as_slice()) || bytes_equal(
                self.chain_registry[i].chain_id.as_slice(),
                chain_id.as_slice(),
            ) {
                assert(self.chain_registry@[i as int].public_key@ == public_key@
                    || self.chain_registry@[i as int].chain_id@ == chain_id@);
                return true;
            }
            i = i + 1;
        }
        false
    }

    /// Registers a chain for a data file and owner key. A key that is not
    /// 32 bytes is `InvalidPublicKeySize`; a key that already has a chain
    /// (or whose identifier is already registered) is a `ChainRegistry`
    /// error; either way nothing changes. Otherwise the chain, with
    /// identifier `registry_chain_id` of the key, is appended to the
    /// registry with 1000 chunks, no commitment, length 0, height 0, a zero
    /// block hash, no encoding and scores of 1.0; the active count grows by
    /// one, and the chain is assigned to a group and that group to a region.
    pub fn add_chain(&mut self, data_file_path: String, public_key: Vec<u8>) -> (r: HashChainResult<AddChainOutcome>)
        requires
            old(self).active_chains < u32::MAX,
            old(self).group_manager.next_group_counter < u32::MAX,
            old(self).region_manager.next_region_counter < u32::MAX,
        ensures
            public_key@.len() != 32 ==> r == Err::<AddChainOutcome, HashChainError>(
                HashChainError::InvalidPublicKeySize(public_key@.len() as usize),
            ) && *final(self) == *old(self),
            public_key@.len() == 32 && key_taken(old(self).chain_registry@, public_key@) ==> (r matches Err(e)
                && e is ChainRegistry) && *final(self) == *old(self),
            public_key@.len() == 32 && !key_taken(old(self).chain_registry@, public_key@) ==> (r matches Ok(o) && {
                &&& o.chain_id@ == registry_chain_id(public_key@)
                &&& final(self).active_chains == old(self).active_chains + 1
                &&& final(self).chain_registry@.drop_last() == old(self).chain_registry@
                &&& final(self).chain_registry@.len() == old(self).chain_registry@.len() + 1
                &&& fresh_registry_entry(final(self).chain_registry@.last(), public_key@, data_file_path@)
                &&& assigned_group(final(self).group_manager.chain_to_group@, o.chain_id@) == Some(o.group_id@)
                &&& assigned_region(final(self).region_manager.group_to_region@, o.group_id@) == Some(o.region_id@)
                &&& (match assigned_group(old(self).group_manager.chain_to_group@, o.chain_id@) {
                    Some(g) => o.group_id@ == g,
                    None => true,
                })
            }),
            old(self).active_chains == old(self).chain_registry@.len() ==> final(self).active_chains
                == final(self).chain_registry@.len(),
            final(self).hierarchy_levels == old(self).hierarchy_levels,
            final(self).chains_per_group == old(self).chains_per_group,
            old(self).group_manager.groups_within_limits() ==> final(self).group_manager.groups_within_limits(),
            old(self).region_manager.regions_within_limits() ==> final(self).region_manager.regions_within_limits(),
            regions_numbered(old(self).region_manager) ==> regions_numbered(final(self).region_manager),
            membership_consistent(old(self).group_manager) ==> membership_consistent(final(self).group_manager),
            groups_numbered(old(self).group_manager) ==> groups_numbered(final(self).group_manager),
    {
        if public_key.len() != 32 {
            return Err(HashChainError::InvalidPublicKeySize(public_key.len()));
        }
        let chain_id = prefix_bytes(&public_key, 16);
        if self.key_taken_exec(&public_key, &chain_id) {
            return Err(HashChainError::ChainRegistry { reason: String::from_str("Public key already has a chain") });
        }
        let chain = LightweightHashChain {
            chain_id: copy_bytes(chain_id.as_slice()),
            public_key,
            data_file_path,
            total_chunks: 1000,
            current_commitment: None,
            chain_length: 0,
            initial_block_height: 0,
            initial_block_hash: zero_hash_bytes(),
            file_encoding: None,
            availability_score_bits: 0x3FF0_0000_0000_0000,
            latency_score_bits: 0x3FF0_0000_0000_0000,
        };
        let ghost reg0 = self.chain_registry@;
        self.chain_registry.push(chain);
        assert(self.chain_registry@.drop_last() =~= reg0);
        self.active_chains = self.active_chains + 1;
        let group_id = self.group_manager.assign_chain_to_group(copy_bytes(chain_id.as_slice()))?;
        let region_id = self.region_manager.assign_group_to_region(group_id.clone())?;
        Ok(AddChainOutcome { chain_id, group_id, region_id })
    }

    /// Unregisters a chain. A chain that is not registered is
    /// `ChainNotFound` (with the hex identifier) and changes nothing.
    /// Otherwise it leaves the registry, the active count drops by one (not
    /// below zero) and the chain leaves its group; the report names the
    /// chain, whether it is archived, and the reason (`removed` when none is
    /// given).
    pub fn remove_chain(&mut self, chain_id: Vec<u8>, reason: Option<String>, archive_data: bool) -> (r:
        HashChainResult<RemoveChainOutcome>)
        ensures
            (forall|i: int|
                0 <= i < old(self).chain_registry@.len() ==> #[trigger] old(self).chain_registry@[i].chain_id@
                    != chain_id@) ==> (r matches Err(HashChainError::ChainNotFound { chain_id: id }) && id@
                == hex_encode_spec(chain_id@)) && *final(self) == *old(self),
            forall|i: int|
                #[trigger] first_registered(old(self).chain_registry@, chain_id@, i) ==> {
                    &&& r matches Ok(o) && {
                        &&& o.chain_id@ == chain_id@
                        &&& o.archived == archive_data
                        &&& o.reason@ == (match reason {
                            Some(s) => s@,
                            None => "removed"@,
                        })
                    }
                    &&& final(self).chain_registry@ == old(self).chain_registry@.remove(i)
                    &&& final(self).active_chains == (if old(self).active_chains > 0 {
                        old(self).active_chains - 1
                    } else {
                        0
                    })
                    &&& removed_from_groups(old(self).group_manager, final(self).group_manager, chain_id@)
                    &&& final(self).region_manager == old(self).region_manager
                    &&& final(self).hierarchy_levels == old(self).hierarchy_levels
                    &&& final(self).chains_per_group == old(self).chains_per_group
                },
            old(self).active_chains == old(self).chain_registry@.len() ==> final(self).active_chains
                == final(self).chain_registry@.len(),
            old(self).group_manager.groups_within_limits() ==> final(self).group_manager.groups_within_limits(),
            membership_consistent(old(self).group_manager) ==> membership_consistent(final(self).group_manager),
            groups_numbered(old(self).group_manager) ==> groups_numbered(final(self).group_manager),
    {
        match self.find_chain(&chain_id) {
            Some(i) => {
                let ghost reg0 = self.chain_registry@;
                let _removed = self.chain_registry.remove(i);
                proof {
                    assert forall|i2: int| #[trigger] first_registered(reg0, chain_id@, i2) implies i2 == i as int by {
                        if i2 < i as int {
                            assert(reg0[i2].chain_id@ != chain_id@);
                        }
                        if (i as int) < i2 {
                            assert(reg0[i as int].chain_id@ != chain_id@);
                        }
                    }
                }
                self.active_chains = self.active_chains.saturating_sub(1);
                self.group_manager.remove_chain_from_group(&chain_id)?;
                let reason_text = match reason {
                    Some(s) => s,
                    None => String::from_str("removed"),
                };
                Ok(RemoveChainOutcome { chain_id, archived: archive_data, reason: reason_text })
            },
            None => {
                let id = bytes_to_hex(chain_id.as_slice());
                Err(HashChainError::ChainNotFound { chain_id: id })
            },
        }
    }

    /// Moves every chain whose length is below the block height forward to
    /// that height (taken modulo 2^32), with the commitment
    /// `block_commitment_spec` of its identifier at this block. Other chains
    /// and every other field stay as they are. Never fails.
    pub fn process_new_block_hierarchical(&mut self, block_hash: Vec<u8>, block_height: u64) -> (r: HashChainResult<()>)
        ensures
            r is Ok,
            final(self).chain_registry@.len() == old(self).chain_registry@.len(),
            final(self).group_manager == old(self).group_manager,
            final(self).region_manager == old(self).region_manager,
            final(self).active_chains == old(self).active_chains,
            forall|i: int|
                0 <= i < old(self).chain_registry@.len() ==> {
                    let before = old(self).chain_registry@[i];
                    let after = #[trigger] final(self).chain_registry@[i];
                    &&& after.chain_id == before.chain_id
                    &&& after.public_key == before.public_key
                    &&& after.total_chunks == before.total_chunks
                    &&& (before.chain_length < block_height ==> after.chain_length == block_height as u32
                        && (after.current_commitment matches Some(c) && c@ == block_commitment_spec(
                        before.chain_id@,
                        block_hash@,
                        block_height,
                    )))
                    &&& (before.chain_length >= block_height ==> after == before)
                },
    {
        let n = self.chain_registry.len();
        let mut i: usize = 0;
        while i < n
            invariant
                i <= n,
                n == old(self).chain_registry@.len(),
                self.chain_registry@.len() == n,
                self.group_manager == old(self).group_manager,
                self.region_manager == old(self).region_manager,
                self.active_chains == old(self).active_chains,
                forall|j: int| i <= j < n ==> #[trigger] self.chain_registry@[j] == old(self).chain_registry@[j],
                forall|j: int|
                    0 <= j < i ==> {
                        let before = old(self).chain_registry@[j];
                        let after = #[trigger] self.chain_registry@[j];
                        &&& after.chain_id == before.chain_id
                        &&& after.public_key == before.public_key
                        &&& after.total_chunks == before.total_chunks
                        &&& (before.chain_length < block_height ==> after.chain_length == block_height as u32
                            && (after.current_commitment matches Some(c) && c@ == block_commitment_spec(
                            before.chain_id@,
                            block_hash@,
                            block_height,
                        )))
                        &&& (before.chain_length >= block_height ==> after == before)
                    },
            decreases n - i,
        {
            if (self.chain_registry[i].chain_length as u64) < block_height {
                let ghost before_all = self.chain_registry@;
                let mut chain = self.chain_registry.remove(i);
                let mut data: Vec<u8> = Vec::new();
                append_bytes(&mut data, chain.chain_id.as_slice());
                append_bytes(&mut data, block_hash.as_slice());
                append_bytes(&mut data, u64_to_be_bytes(block_height).as_slice());
                chain.chain_length = block_height as u32;
                chain.current_commitment = Some(sha256(data.as_slice()));
                self.chain_registry.insert(i, chain);
                assert(self.chain_registry@ =~= before_all.update(i as int, self.chain_registry@[i as int]));
            }
            i = i + 1;
        }
        Ok(())
    }

    /// The counts of active chains, groups and regions.
    pub fn get_statistics(&self) -> (s: ManagerStatistics)
        ensures
            s.active_chains == self.active_chains,
            s.total_groups == self.group_manager.groups@.len(),
            s.total_regions == self.region_manager.regions@.len(),
    {
        ManagerStatistics {
            active_chains: self.active_chains,
            total_groups: self.group_manager.groups.len(),
            total_regions: self.region_manager.regions.len(),
        }
    }
}

impl Default for HierarchicalGlobalChainManager {
    /// A manager of three levels with the standard group size.
    fn default() -> (m: HierarchicalGlobalChainManager)
        ensures
            m.hierarchy_levels == 3,
            m.chains_per_group == CHAINS_PER_GROUP,
            m.chain_registry@.len() == 0,
            m.active_chains == 0,
    {
        HierarchicalGlobalChainManager::new(3, CHAINS_PER_GROUP)
    }
}

} // verus!
