use vstd::prelude::*;

verus! {

/// Blockchain average block time in seconds.
pub const BLOCK_TIME_SECONDS: u32 = 52;
/// Length of the proof window in minutes.
pub const PROOF_WINDOW_MINUTES: u32 = 4;
/// Number of commitments in a proof window.
pub const PROOF_WINDOW_BLOCKS: u32 = 5;
/// Size of one data chunk in bytes.
pub const CHUNK_SIZE_BYTES: u32 = 4096;
/// Number of chunks selected for every block.
pub const CHUNKS_PER_BLOCK: u32 = 16;
/// Output size of SHA-256.
pub const HASH_SIZE: usize = 32;

/// Smallest file that yields a full block's worth of chunks.
pub const MIN_FILE_SIZE: u64 = 65536;
/// Memory requirement of the memory-hard VDF.
pub const MEMORY_HARD_VDF_MEMORY: usize = 268435456;
/// Iterations of the memory-hard VDF for a full block interval.
pub const MEMORY_HARD_ITERATIONS: u32 = 28000000;
/// Version tag of the chunk selection algorithm.
pub const CHUNK_SELECTION_VERSION: u32 = 2;

/// Number of seed bytes taken from a selection hash.
pub const CHUNK_SELECTION_SEED_SIZE: usize = 16;
/// Attempts per slot before the linear fallback is used.
pub const CHUNK_SELECTION_MAX_ATTEMPTS: u32 = 32;
/// Number of entropy sources that are combined.
pub const ENTROPY_SOURCES_COUNT: u32 = 3;

/// Version of the hash chain file format.
pub const HASHCHAIN_FORMAT_VERSION: u32 = 2;
/// Size reserved for the hash chain header.
pub const HASHCHAIN_HEADER_SIZE: usize = 512;
/// Largest number of chunks a data file may have.
pub const HASHCHAIN_MAX_CHUNKS: u64 = 1048576;
/// Smallest number of chunks a data file may have.
pub const HASHCHAIN_MIN_CHUNKS: u64 = 1;

/// Sequential hash iterations of the global root proof.
pub const GLOBAL_ROOT_ITERATIONS: u32 = 20000;
/// Sequential hash iterations of a regional proof.
pub const REGIONAL_ITERATIONS: u32 = 10000;
/// Sequential hash iterations of a group proof.
pub const GROUP_ITERATIONS: u32 = 2000;
/// Standard number of chains in a group.
pub const CHAINS_PER_GROUP: u32 = 1000;
/// Standard number of groups in a region.
pub const GROUPS_PER_REGION: u32 = 10;

/// Availability challenges issued per block.
pub const AVAILABILITY_CHALLENGES_PER_BLOCK: u32 = 10;
/// Deadline for an availability response in milliseconds.
pub const AVAILABILITY_RESPONSE_TIME_MS: u32 = 500;

/// Peers sampled for a network latency proof.
pub const NETWORK_LATENCY_SAMPLES: u32 = 5;
/// Largest acceptable average latency in milliseconds.
pub const NETWORK_LATENCY_MAX_MS: u32 = 100;

/// Bond amount of a checkpoint in base token units.
pub const CHECKPOINT_BOND_UNITS: u64 = 1000;
/// Reward for a successful availability challenge.
pub const AVAILABILITY_REWARD_UNITS: u64 = 1;
/// Registration deposit of a chain.
pub const CHAIN_REGISTRATION_UNITS: u64 = 100;
/// Penalty for invalid behaviour.
pub const SLASHING_PENALTY_UNITS: u64 = 1000;

/// Largest number of chains one instance manages.
pub const MAX_CHAINS_PER_INSTANCE: u32 = 100000;
/// Blocks between global state updates.
pub const GLOBAL_STATE_UPDATE_INTERVAL: u32 = 5;
/// Blocks between a removal request and the removal.
pub const REMOVAL_DELAY_BLOCKS: u32 = 20;
/// Blocks of inactivity after which a chain times out.
pub const INACTIVE_CHAIN_TIMEOUT_BLOCKS: u32 = 2070;
/// Blocks between state clean-ups.
pub const STATE_CLEANUP_INTERVAL: u32 = 69;

/// Target time for processing one block in milliseconds.
pub const BLOCK_PROCESSING_TARGET_MS: u32 = 40000;
/// Target time per chain in milliseconds.
pub const PER_CHAIN_PROCESSING_TARGET_MS: u32 = 5;

/// The magic bytes "HCH2" that open a hash chain file.
pub open spec fn hashchain_magic() -> Seq<u8> {
    seq![72u8, 67u8, 72u8, 50u8]
}

/// The magic bytes "HCH2" that open a hash chain file.
pub fn hashchain_magic_bytes() -> (m: Vec<u8>)
    ensures
        m@ == hashchain_magic(),
{
    vec![72u8, 67u8, 72u8, 50u8]
}

} // verus!
