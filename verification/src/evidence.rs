//! What the node's rules read of a signed shard and of its failures.
use vstd::prelude::*;

verus! {

/// A signed shard as the vault sees it. `body` is its serialized form; the
/// other fields are what storage, chaining and revocation decide by.
#[derive(Debug)]
pub struct Envelope {
    pub recording_id: String,
    pub sequence_id: u32,
    /// The owner that the envelope names.
    pub did: String,
    /// The witness that signed it.
    pub witness: String,
    /// Identifies the evidence, whatever signature it carries.
    pub evidence_hash: Vec<u8>,
    /// The link that the next envelope of the recording chains to.
    pub signature_hash: Vec<u8>,
    /// The public key that a revocation of the recording must be signed with.
    pub revocation_key: Vec<u8>,
    pub body: Vec<u8>,
}

/// Why the vault refused or failed.
#[derive(Debug)]
pub enum GuardianError {
    StorageFailure(String),
    SerializationError(String),
    VerificationFailed(String),
    ChainIntegrityViolation(String),
    RecordingRevoked(String),
    ReplayDetected(u64),
    WalWriteFailed(String),
    InvalidSignature(String),
    QuotaExceeded(String),
    AmbiguousOwnership,
    PolicyViolation(String),
}

/// What a peer is held to have done.
#[derive(Debug, Clone, Copy, PartialEq, Eq, Structural)]
pub enum Offense {
    InvalidSignature,
    QuotaExceeded,
    ReplayAttack,
    IdentityTheft,
    ProtocolViolation,
    /// The peer takes and does not give.
    NonReciprocal,
    /// Someone tries to cut the node off from the mesh.
    EclipseAttempt,
}

/// Why a shard was refused before it reached the vault.
#[derive(Debug)]
pub enum ShardError {
    InvalidConfiguration(String),
    RecordingRevoked,
    SerializationError(String),
    Io(String),
    Other(String),
}

impl GuardianError {
    /// A storage failure with these words.
    pub open spec fn is_storage_failure(self, words: Seq<char>) -> bool {
        self matches GuardianError::StorageFailure(m) && m@ == words
    }

    /// A failed verification with these words.
    pub open spec fn is_verification_failed(self, words: Seq<char>) -> bool {
        self matches GuardianError::VerificationFailed(m) && m@ == words
    }

    /// A broken chain with these words.
    pub open spec fn is_chain_violation(self, words: Seq<char>) -> bool {
        self matches GuardianError::ChainIntegrityViolation(m) && m@ == words
    }

    /// A format error with these words.
    pub open spec fn is_serialization(self, words: Seq<char>) -> bool {
        self matches GuardianError::SerializationError(m) && m@ == words
    }

    /// The refusal of a revoked recording.
    pub open spec fn is_revoked(self, recording_id: Seq<char>) -> bool {
        self matches GuardianError::RecordingRevoked(r) && r@ == recording_id
    }
}

impl ShardError {
    /// An input or output error with these words.
    pub open spec fn is_io(self, words: Seq<char>) -> bool {
        self matches ShardError::Io(m) && m@ == words
    }

    /// A format error with these words.
    pub open spec fn is_serialization(self, words: Seq<char>) -> bool {
        self matches ShardError::SerializationError(m) && m@ == words
    }
}

} // verus!
