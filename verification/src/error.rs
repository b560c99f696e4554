//! The errors of the library.

use vstd::prelude::*;

verus! {

/// What can go wrong in the protocol or on the wire.
#[derive(Debug)]
pub enum RaftError {
    /// Failed to achieve majority consensus for log replication.
    ReplicationFailure,
    /// Election failed: not enough votes.
    ElectionFailure,
    /// Node is not the leader.
    NotLeader,
    /// Log entry not found at the given index.
    LogEntryNotFound(u64),
    /// Invalid log entry conversion.
    InvalidLogEntry,
    /// RPC communication error, with its description.
    RpcError(String),
    /// Invalid state transition.
    InvalidStateTransition { from: crate::NodeState, to: crate::NodeState },
    /// Term mismatch.
    TermMismatch { expected: u64, actual: u64 },
}

/// The result of a fallible protocol step.
pub type RaftResult<T> = Result<T, RaftError>;

} // verus!
