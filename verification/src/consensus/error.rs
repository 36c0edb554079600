//! Error types for consensus operations.

use vstd::prelude::*;
use crate::consensus::types::NodeId;

verus! {

/// Errors that can occur during consensus operations.
#[derive(Debug, Clone, PartialEq, Eq)]
pub enum ConsensusError {
    /// Invalid configuration.
    InvalidConfiguration(String),
    /// Cryptographic operation failed.
    CryptographicError(String),
    /// Network communication error.
    NetworkError(String),
    /// Invalid vote received.
    InvalidVote(String),
    /// Invalid block proposal.
    InvalidProposal(String),
    /// View change error.
    ViewChangeError(String),
    /// Timeout occurred.
    Timeout(String),
    /// State machine error.
    StateMachineError(String),
    /// Insufficient votes for quorum (legacy form).
    InsufficientVotesLegacy { got: usize, needed: usize },
    /// Node not in validator set.
    UnknownValidator(NodeId),
    /// Consensus protocol already started.
    AlreadyStarted,
    /// Consensus protocol not started.
    NotStarted,
    /// Invalid view number.
    InvalidView(u64),
    /// Block validation failed.
    ValidationFailed(String),
    /// Serialization/deserialization error.
    SerializationError(String),
    /// Internal error.
    Internal(String),
    /// Invalid leader for current view.
    InvalidLeader,
    /// Invalid block received.
    InvalidBlock,
    /// Invalid signature.
    InvalidSignature,
    /// Node is not the leader.
    NotLeader,
    /// Already running.
    AlreadyRunning,
    /// Invalid timestamp.
    InvalidTimestamp,
    /// Insufficient votes for quorum.
    InsufficientVotes { required: usize, received: usize },
    /// Empty quorum certificate.
    EmptyQuorumCertificate,
    /// Inconsistent votes in a quorum certificate.
    InconsistentVotes,
    /// Duplicate voter in a quorum certificate.
    DuplicateVoter(NodeId),
}

} // verus!
