//! The messages that nodes exchange.

use vstd::prelude::*;

use crate::LogEntry;

verus! {

/// A candidate's request for a vote.
#[derive(Debug, Clone)]
pub struct VoteRequest {
    pub term: u64,
    pub candidate_id: String,
    pub last_log_index: u64,
    pub last_log_term: u64,
}

/// What a vote request carries, as plain values.
pub ghost struct VoteRequestView {
    pub term: u64,
    pub candidate: Seq<char>,
    pub last_log_index: u64,
    pub last_log_term: u64,
}

impl View for VoteRequest {
    type V = VoteRequestView;

    open spec fn view(&self) -> VoteRequestView {
        VoteRequestView {
            term: self.term,
            candidate: self.candidate_id@,
            last_log_index: self.last_log_index,
            last_log_term: self.last_log_term,
        }
    }
}

/// The answer to a vote request.
#[derive(Debug, Clone, Copy, PartialEq, Eq, Structural)]
pub struct VoteResponse {
    pub term: u64,
    pub vote_granted: bool,
}

/// A leader's request to append entries (empty for a heartbeat).
#[derive(Debug, Clone)]
pub struct AppendEntries {
    pub term: u64,
    pub leader_id: String,
    pub prev_log_index: u64,
    pub prev_log_term: u64,
    pub entries: Vec<LogEntry>,
    pub leader_commit: u64,
}

/// The answer to an append request.
#[derive(Debug, Clone, Copy, PartialEq, Eq, Structural)]
pub struct AppendResponse {
    pub term: u64,
    pub success: bool,
}

/// A request on the wire.
#[derive(Debug, Clone)]
pub enum RaftRequest {
    Vote(VoteRequest),
    AppendEntries(AppendEntries),
}

/// A response on the wire.
#[derive(Debug, Clone, Copy, PartialEq, Eq, Structural)]
pub enum RaftResponse {
    Vote(VoteResponse),
    AppendEntries(AppendResponse),
}

} // verus!
