//! The replicated state machine that committed commands are applied to.

use std::fmt::Debug;

use vstd::prelude::*;

pub use crate::LogEntry;

verus! {

/// A deterministic state machine fed with the commands of committed log entries.
///
/// Users implement it for their own data structure; the library claims nothing of
/// what `apply` does.
pub trait StateMachine: Send + Sync + Debug {
    type Error: std::fmt::Display + Debug + Send + Sync + 'static;

    /// Applies one command and returns its encoded result.
    fn apply(&mut self, command: &[u8]) -> Result<Vec<u8>, Self::Error>;

    /// Takes a snapshot of the whole state; unless overridden, it is empty.
    fn snapshot(&self) -> (r: Result<Vec<u8>, Self::Error>)
        default_ensures
            r matches Ok(v) && v@ == Seq::<u8>::empty(),
    {
        Ok(Vec::new())
    }

    /// Restores the state from a snapshot; unless overridden, it does nothing and succeeds.
    fn restore(&mut self, snapshot: &[u8]) -> (r: Result<(), Self::Error>)
        default_ensures
            r is Ok,
    {
        Ok(())
    }
}

/// The role of a node, as named in state transitions.
#[derive(Debug, Clone, Copy, PartialEq, Eq, Structural)]
pub enum NodeState {
    Follower,
    Candidate,
    Leader,
}

} // verus!
