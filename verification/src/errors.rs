//! Errors of the hash chain system and the status class each one maps to.
use vstd::prelude::*;

verus! {

/// Status class of an error as it is reported to callers of the binding layer.
#[derive(PartialEq, Eq, Structural, Clone, Copy, Debug)]
pub enum Status {
    /// The caller passed an argument that is not acceptable.
    InvalidArg,
    /// The operation failed for another reason.
    GenericFailure,
}

/// Errors of the hash chain system.
#[derive(Clone, Debug)]
pub enum HashChainError {
    /// File I/O failed (the text of the I/O error).
    Io(String),
    /// A public key does not have 32 bytes (the length found).
    InvalidPublicKeySize(usize),
    /// A block hash does not have 32 bytes (the length found).
    InvalidBlockHashSize(usize),
    /// A chunk index is not below the chunk count.
    ChunkIndexOutOfRange { index: u32, max: u64 },
    /// More chunks than a file may have.
    TooManyChunks { count: u64, max: u64 },
    /// Fewer chunks than a file must have.
    TooFewChunks { count: u64, min: u64 },
    /// The hash chain already holds data.
    AlreadyHasData,
    /// No data has been streamed into the hash chain yet.
    NoDataStreamed,
    /// The chain is too short for a proof window.
    InsufficientChainLength(u32),
    /// The chain is shorter than required.
    ChainTooShort { length: u32, required: u32 },
    /// A file does not exist.
    FileNotFound { path: String },
    /// A file does not have the expected format.
    FileFormat(String),
    /// A file is corrupted.
    Corruption(String),
    /// Merkle tree construction failed.
    MerkleTree(String),
    /// A consensus rule is violated.
    Consensus(String),
    /// Serialisation failed.
    Serialization(String),
    /// Verification failed.
    VerificationFailed { reason: String },
    /// A chain is not registered.
    ChainNotFound { chain_id: String },
    /// A group holds its maximum number of chains.
    GroupFull { group_id: String, max_chains: u32 },
    /// A region holds its maximum number of groups.
    RegionFull { region_id: String, max_groups: u32 },
    /// A hierarchical proof could not be computed.
    HierarchicalProofFailed { reason: String },
    /// A lifecycle transition is not allowed from the current state.
    ChainLifecycle { reason: String },
    /// An operation took longer than its target.
    PerformanceTarget { operation: String, actual_ms: u32, target_ms: u32 },
    /// A count exceeds its limit.
    ScaleLimit { count: u32, limit: u32 },
    /// A retention policy is violated.
    RetentionPolicy { reason: String },
    /// An audit failed.
    AuditFailed { reason: String },
    /// A compact proof is malformed.
    CompactProof { reason: String },
    /// Parallel processing failed.
    ParallelProcessing { reason: String },
    /// A chain or group could not be assigned.
    GroupAssignment { reason: String },
    /// The chain registry is inconsistent.
    ChainRegistry { reason: String },
    /// The global state is inconsistent.
    GlobalState { reason: String },
    /// A private key does not have 32 bytes (the length found).
    InvalidPrivateKeySize(usize),
    /// A signature does not have 64 bytes (the length found).
    InvalidSignatureSize(usize),
    /// A cryptographic operation failed.
    CryptographicError(String),
    /// A VDF proof does not verify.
    VDFVerificationFailed { reason: String },
    /// The VDF could not perform the requested operation.
    VDFError(String),
    /// Entropy could not be generated.
    EntropyGenerationFailed { reason: String },
    /// A key could not be derived.
    KeyDerivationFailed { reason: String },
    /// Proof parameters are invalid.
    InvalidProofParameters { reason: String },
    /// An argument is rejected by a check of the binding layer.
    InvalidArgument { reason: String },
    /// An operation of the binding layer failed.
    GenericFailure { reason: String },
}

/// Result of an operation of the hash chain system.
pub type HashChainResult<T> = Result<T, HashChainError>;

/// The status class of each error: argument errors (sizes, ranges, chain
/// state, file format, registry and audit errors) are `InvalidArg`, the rest
/// `GenericFailure`.
pub open spec fn status_of(err: HashChainError) -> Status {
    match err {
        HashChainError::InvalidPublicKeySize(_) | HashChainError::InvalidBlockHashSize(_)
        | HashChainError::ChunkIndexOutOfRange { .. } | HashChainError::TooManyChunks { .. }
        | HashChainError::TooFewChunks { .. } | HashChainError::AlreadyHasData
        | HashChainError::NoDataStreamed | HashChainError::InsufficientChainLength(_)
        | HashChainError::ChainTooShort { .. } | HashChainError::FileFormat(_)
        | HashChainError::Corruption(_) | HashChainError::ChainNotFound { .. }
        | HashChainError::GroupFull { .. } | HashChainError::RegionFull { .. }
        | HashChainError::AuditFailed { .. } | HashChainError::CompactProof { .. }
        | HashChainError::InvalidArgument { .. } => Status::InvalidArg,
        _ => Status::GenericFailure,
    }
}

impl HashChainError {
    /// The status class this error is reported with.
    pub fn status(&self) -> (s: Status)
        ensures
            s == status_of(*self),
    {
        match self {
            HashChainError::InvalidPublicKeySize(_) | HashChainError::InvalidBlockHashSize(_)
            | HashChainError::ChunkIndexOutOfRange { .. } | HashChainError::TooManyChunks { .. }
            | HashChainError::TooFewChunks { .. } => Status::InvalidArg,
            HashChainError::AlreadyHasData | HashChainError::NoDataStreamed
            | HashChainError::InsufficientChainLength(_) | HashChainError::ChainTooShort { .. } => {
                Status::InvalidArg
            },
            HashChainError::Io(_) | HashChainError::FileNotFound { .. } => Status::GenericFailure,
            HashChainError::FileFormat(_) | HashChainError::Corruption(_) => Status::InvalidArg,
            HashChainError::ChainNotFound { .. } | HashChainError::GroupFull { .. }
            | HashChainError::RegionFull { .. } => Status::InvalidArg,
            HashChainError::PerformanceTarget { .. } | HashChainError::ScaleLimit { .. } => {
                Status::GenericFailure
            },
            HashChainError::AuditFailed { .. } | HashChainError::CompactProof { .. } => {
                Status::InvalidArg
            },
            HashChainError::InvalidArgument { .. } => Status::InvalidArg,
            _ => Status::GenericFailure,
        }
    }
}

/// Fails with `PerformanceTarget` exactly when `actual_ms` exceeds `target_ms`.
pub fn check_performance_target(operation: &str, actual_ms: u32, target_ms: u32) -> (r: HashChainResult<()>)
    ensures
        r is Ok <==> actual_ms <= target_ms,
        r matches Err(HashChainError::PerformanceTarget { operation: op, actual_ms: a, target_ms: t })
            ==> op@ == operation@ && a == actual_ms && t == target_ms,
        r is Err ==> r->Err_0 is PerformanceTarget,
{
    if actual_ms > target_ms {
        Err(HashChainError::PerformanceTarget { operation: operation.to_owned(), actual_ms, target_ms })
    } else {
        Ok(())
    }
}

/// Fails with `ScaleLimit` exactly when `count` exceeds `limit`.
pub fn check_scale_limit(count: u32, limit: u32, entity: &str) -> (r: HashChainResult<()>)
    ensures
        r is Ok <==> count <= limit,
        r is Err ==> r->Err_0 == (HashChainError::ScaleLimit { count, limit }),
{
    if count > limit {
        Err(HashChainError::ScaleLimit { count, limit })
    } else {
        Ok(())
    }
}

} // verus!
