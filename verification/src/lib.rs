//! Raft consensus: the protocol's state, its decisions and its wire framing.

mod clock;
pub mod error;
pub mod raft_node;
pub mod rpc;
pub mod state;
pub mod state_machine;
pub mod transport;

use vstd::prelude::*;

pub use error::{RaftError, RaftResult};
pub use state_machine::{NodeState, StateMachine};

verus! {

/// The role a node plays in the cluster.
#[derive(Debug, Clone, Copy, PartialEq, Eq, Structural)]
pub enum NodeRole {
    Follower,
    Candidate,
    Leader,
}

impl Default for NodeRole {
    /// A node starts as a follower.
    fn default() -> (r: Self)
        ensures
            r == NodeRole::Follower,
    {
        NodeRole::Follower
    }
}

/// One entry of the replicated log.
#[derive(Debug)]
pub struct LogEntry {
    pub term: u64,
    pub idx: u64,
    pub command: Vec<u8>,
}

/// What a log entry holds, as plain values.
pub ghost struct LogEntryView {
    pub term: u64,
    pub idx: u64,
    pub command: Seq<u8>,
}

impl View for LogEntry {
    type V = LogEntryView;

    open spec fn view(&self) -> LogEntryView {
        LogEntryView { term: self.term, idx: self.idx, command: self.command@ }
    }
}

impl Clone for LogEntry {
    fn clone(&self) -> (r: Self)
        ensures
            r@ == self@,
    {
        LogEntry { term: self.term, idx: self.idx, command: self.command.clone() }
    }
}

impl Default for LogEntry {
    /// The empty entry: term 0, index 0, no command.
    fn default() -> (r: Self)
        ensures
            r@ == (LogEntryView { term: 0, idx: 0, command: Seq::empty() }),
    {
        LogEntry { term: 0, idx: 0, command: Vec::new() }
    }
}

/// How a node's election ends, or that it goes on.
#[derive(Debug, Clone, Copy, PartialEq, Eq, Structural)]
pub enum ElectionOutcome {
    /// A majority voted for this node.
    Won,
    /// A peer answered with a higher term: this node steps down to it.
    StepDown { new_term: u64 },
    /// The election goes on.
    Continue,
}

/// The views of a sequence of log entries.
pub open spec fn entries_view(entries: Seq<LogEntry>) -> Seq<LogEntryView> {
    entries.map_values(|e: LogEntry| e@)
}

} // verus!
