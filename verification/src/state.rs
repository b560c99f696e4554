//! The protocol state of a node and the decisions taken on it alone.

use std::collections::HashMap;

use tokio::time::Instant;
use vstd::prelude::*;

use crate::clock::{nanos_since, now};
use crate::rpc::VoteResponse;
use crate::{ElectionOutcome, LogEntry, NodeRole};

verus! {

/// The view of an optional node id.
pub open spec fn opt_id_view(id: Option<String>) -> Option<Seq<char>> {
    match id {
        Some(s) => Some(s@),
        None => None,
    }
}

/// A vote count as the platform's `usize` reads it: a count beyond `usize::MAX`
/// reads as zero.
pub open spec fn vote_count(votes: u64) -> int {
    if votes <= usize::MAX {
        votes as int
    } else {
        0
    }
}

/// A vote is granted only to a candidate whose last log entry is at least as far in
/// index and in term as the voter's, in a term that is not stale, when the voter has
/// not voted for another candidate; and whenever all of that holds, it is granted.
pub proof fn lemma_vote_needs_up_to_date_log(
    s: RaftState,
    term: u64,
    log_index: u64,
    log_term: u64,
    candidate_log_index: u64,
    candidate_log_term: u64,
    candidate_id: Seq<char>,
)
    ensures
        s.grants_vote(term, log_index, log_term, candidate_log_index, candidate_log_term, candidate_id)
            <==> {
            &&& candidate_log_index >= log_index
            &&& candidate_log_term >= log_term
            &&& term >= s.current_term
            &&& (s.voted_for matches Some(id) ==> id@ == candidate_id)
        },
{
}

/// The volatile protocol state of a node.
#[derive(Debug)]
pub struct RaftState {
    /// Current role of this node (Follower, Candidate, or Leader).
    pub role: NodeRole,
    /// Latest term this node has seen (monotonically increasing).
    pub current_term: u64,
    /// Index of highest log entry known to be committed.
    pub commit_index: u64,
    /// Index of highest log entry applied to state machine.
    pub last_applied: u64,
    /// Number of votes received in current election (used when Candidate).
    pub votes_received: u64,
    /// Candidate that received this node's vote in the current term, if any.
    pub voted_for: Option<String>,
    /// For each peer, index of the next log entry to send (Leader only).
    pub next_index: HashMap<String, u64>,
    /// For each peer, index of highest log entry known to be replicated (Leader only).
    pub match_index: HashMap<String, u64>,
    /// Milliseconds to wait for a heartbeat before starting an election.
    pub election_timeout_ms: u64,
    /// When the last heartbeat (or vote, or election start) was seen.
    pub last_heartbeat: Instant,
}

impl RaftState {
    /// The state a node starts from, apart from its timeout and clock.
    pub open spec fn is_initial(&self) -> bool {
        &&& self.role == NodeRole::Follower
        &&& self.current_term == 0
        &&& self.commit_index == 0
        &&& self.last_applied == 0
        &&& self.votes_received == 0
        &&& self.voted_for is None
        &&& self.next_index@ == Map::<String, u64>::empty()
        &&& self.match_index@ == Map::<String, u64>::empty()
    }

    /// The fields that no role change touches.
    pub open spec fn same_bookkeeping(&self, other: &RaftState) -> bool {
        &&& self.commit_index == other.commit_index
        &&& self.last_applied == other.last_applied
        &&& self.next_index@ == other.next_index@
        &&& self.match_index@ == other.match_index@
        &&& self.election_timeout_ms == other.election_timeout_ms
    }

    /// Whether a vote is owed to a candidate: this node has not voted for another
    /// candidate, the candidate's last log entry is at least as far in term and in
    /// index as the given one, and the request's term is not stale.
    pub open spec fn grants_vote(
        &self,
        term: u64,
        log_index: u64,
        log_term: u64,
        candidate_log_index: u64,
        candidate_log_term: u64,
        candidate_id: Seq<char>,
    ) -> bool {
        &&& (self.voted_for is None || opt_id_view(self.voted_for) == Some(candidate_id))
        &&& candidate_log_term >= log_term
        &&& candidate_log_index >= log_index
        &&& term >= self.current_term
    }

    /// A fresh follower state with term 0, no vote and an election timeout of 0 ms.
    pub fn new() -> (s: Self)
        ensures
            s.is_initial(),
            s.election_timeout_ms == 0,
    {
        Self::default()
    }

    /// Decides whether to vote for a candidate (see `grants_vote`).
    pub fn should_grant_vote(
        &self,
        term: u64,
        log_index: u64,
        log_term: u64,
        candidate_log_index: u64,
        candidate_log_term: u64,
        candidate_id: &String,
    ) -> (r: bool)
        ensures
            r == self.grants_vote(
                term,
                log_index,
                log_term,
                candidate_log_index,
                candidate_log_term,
                candidate_id@,
            ),
            r ==> candidate_log_index >= log_index,
            r ==> candidate_log_term >= log_term,
            r ==> term >= self.current_term,
            r ==> (self.voted_for matches Some(id) ==> id@ == candidate_id@),
            candidate_log_index >= log_index && candidate_log_term >= log_term && term
                >= self.current_term && (self.voted_for matches Some(id) ==> id@ == candidate_id@)
                ==> r,
    {
        let free = match &self.voted_for {
            Some(id) => *id == *candidate_id,
            None => true,
        };
        free && candidate_log_term >= log_term && candidate_log_index >= log_index && term
            >= self.current_term
    }

    /// Whether a follower whose last heartbeat lies `elapsed_nanos` nanoseconds back
    /// should start an election: only a follower does, and only once more time than
    /// its election timeout has passed.
    pub fn should_start_election_after(&self, elapsed_nanos: u128) -> (r: bool)
        ensures
            r == (self.role == NodeRole::Follower && elapsed_nanos > self.election_timeout_ms
                * 1_000_000),
    {
        match self.role {
            NodeRole::Follower => election_timeout_expired(elapsed_nanos, self.election_timeout_ms),
            _ => false,
        }
    }

    /// Whether this node should start an election now: it is a follower and the time
    /// since its last heartbeat, read from the clock, exceeds its election timeout.
    /// A candidate or a leader never starts one.
    pub fn should_start_election(&self) -> (r: bool)
        ensures
            r ==> self.role == NodeRole::Follower,
            self.role != NodeRole::Follower ==> !r,
    {
        match self.role {
            NodeRole::Follower => {
                let elapsed = nanos_since(&self.last_heartbeat);
                self.should_start_election_after(elapsed)
            },
            _ => false,
        }
    }

    /// Whether to accept entries: the request's term is not stale, and the request
    /// starts the log afresh (`prev_log_index` 0) or `log` holds an entry at the
    /// (1-based) index `prev_log_index` whose term is `prev_log_term`.
    pub fn should_accept_entries(
        &self,
        log: &[LogEntry],
        request_term: u64,
        prev_log_index: u64,
        prev_log_term: u64,
    ) -> (r: bool)
        ensures
            r == (request_term >= self.current_term && (prev_log_index == 0 || (prev_log_index
                <= log@.len() && log@[prev_log_index - 1].term == prev_log_term))),
    {
        if request_term < self.current_term {
            return false;
        }
        if prev_log_index == 0 {
            return true;
        }
        if prev_log_index <= log.len() as u64 {
            log[(prev_log_index - 1) as usize].term == prev_log_term
        } else {
            false
        }
    }

    /// Counts one vote response of the current election, given how many votes make a
    /// majority. A response with a higher term ends the election with a step-down to
    /// that term and leaves the state as it is. A granted vote is counted; the
    /// election is won once the count reaches the majority. Anything else changes
    /// nothing.
    pub fn process_vote_response(&mut self, response: &VoteResponse, needed_votes: usize) -> (r:
        ElectionOutcome)
        requires
            response.term <= old(self).current_term && response.vote_granted ==> old(
                self,
            ).votes_received < u64::MAX,
        ensures
            response.term > old(self).current_term ==> r == (ElectionOutcome::StepDown {
                new_term: response.term,
            }) && *final(self) == *old(self),
            response.term <= old(self).current_term && response.vote_granted ==> {
                &&& final(self).votes_received == old(self).votes_received + 1
                &&& *final(self) == (RaftState {
                    votes_received: final(self).votes_received,
                    ..*old(self)
                })
                &&& r == if vote_count(final(self).votes_received) >= needed_votes {
                    ElectionOutcome::Won
                } else {
                    ElectionOutcome::Continue
                }
            },
            response.term <= old(self).current_term && !response.vote_granted ==> r
                == ElectionOutcome::Continue && *final(self) == *old(self),
    {
        if response.term > self.current_term {
            return ElectionOutcome::StepDown { new_term: response.term };
        }
        if response.vote_granted {
            self.votes_received = self.votes_received + 1;
            let count: usize = if self.votes_received <= usize::MAX as u64 {
                self.votes_received as usize
            } else {
                0
            };
            if count >= needed_votes {
                ElectionOutcome::Won
            } else {
                ElectionOutcome::Continue
            }
        } else {
            ElectionOutcome::Continue
        }
    }
}

impl Clone for RaftState {
    /// A copy with the same role, counters, vote, maps, timeout and heartbeat.
    fn clone(&self) -> (s: Self)
        ensures
            s.role == self.role,
            s.current_term == self.current_term,
            s.votes_received == self.votes_received,
            opt_id_view(s.voted_for) == opt_id_view(self.voted_for),
            s.same_bookkeeping(self),
            s.last_heartbeat == self.last_heartbeat,
    {
        RaftState {
            role: self.role,
            current_term: self.current_term,
            commit_index: self.commit_index,
            last_applied: self.last_applied,
            votes_received: self.votes_received,
            voted_for: match &self.voted_for {
                Some(id) => Some(id.clone()),
                None => None,
            },
            next_index: self.next_index.clone(),
            match_index: self.match_index.clone(),
            election_timeout_ms: self.election_timeout_ms,
            last_heartbeat: self.last_heartbeat,
        }
    }
}

impl Default for RaftState {
    /// A follower at term 0 with no vote, no progress and an election timeout of 0 ms,
    /// whose last heartbeat is now.
    fn default() -> (s: Self)
        ensures
            s.is_initial(),
            s.election_timeout_ms == 0,
    {
        RaftState {
            role: NodeRole::Follower,
            current_term: 0,
            commit_index: 0,
            last_applied: 0,
            votes_received: 0,
            voted_for: None,
            next_index: HashMap::new(),
            match_index: HashMap::new(),
            election_timeout_ms: 0,
            last_heartbeat: now(),
        }
    }
}

/// Whether more than `timeout_ms` milliseconds lie in `elapsed_nanos` nanoseconds.
pub fn election_timeout_expired(elapsed_nanos: u128, timeout_ms: u64) -> (r: bool)
    ensures
        r == (elapsed_nanos > timeout_ms * 1_000_000),
{
    elapsed_nanos > (timeout_ms as u128) * 1_000_000
}

/// The state of a node that steps down to follower at `new_term`: no vote, no
/// votes counted, and a fresh heartbeat.
pub fn transition_to_follower(current: &RaftState, new_term: u64) -> (s: RaftState)
    ensures
        s.role == NodeRole::Follower,
        s.current_term == new_term,
        s.votes_received == 0,
        s.voted_for is None,
        s.same_bookkeeping(current),
{
    RaftState {
        role: NodeRole::Follower,
        current_term: new_term,
        commit_index: current.commit_index,
        last_applied: current.last_applied,
        votes_received: 0,
        voted_for: None,
        next_index: current.next_index.clone(),
        match_index: current.match_index.clone(),
        election_timeout_ms: current.election_timeout_ms,
        last_heartbeat: now(),
    }
}

/// The state of a node that starts an election: candidate in the next term,
/// voting for itself, with its own vote as the only one counted, and a fresh
/// heartbeat.
pub fn transition_to_candidate(current: &RaftState, id: &String) -> (s: RaftState)
    requires
        current.current_term < u64::MAX,
    ensures
        s.role == NodeRole::Candidate,
        s.current_term == current.current_term + 1,
        s.votes_received == 1,
        opt_id_view(s.voted_for) == Some(id@),
        s.same_bookkeeping(current),
{
    RaftState {
        role: NodeRole::Candidate,
        current_term: current.current_term + 1,
        commit_index: current.commit_index,
        last_applied: current.last_applied,
        votes_received: 1,
        voted_for: Some(id.clone()),
        next_index: current.next_index.clone(),
        match_index: current.match_index.clone(),
        election_timeout_ms: current.election_timeout_ms,
        last_heartbeat: now(),
    }
}

/// The state of a node that wins an election: leader in the same term, keeping the
/// vote it cast in that term, with no votes counted.
pub fn transition_to_leader(current: &RaftState) -> (s: RaftState)
    ensures
        s.role == NodeRole::Leader,
        s.current_term == current.current_term,
        s.votes_received == 0,
        opt_id_view(s.voted_for) == opt_id_view(current.voted_for),
        s.same_bookkeeping(current),
        s.last_heartbeat == current.last_heartbeat,
{
    RaftState {
        role: NodeRole::Leader,
        current_term: current.current_term,
        commit_index: current.commit_index,
        last_applied: current.last_applied,
        votes_received: 0,
        voted_for: match &current.voted_for {
            Some(id) => Some(id.clone()),
            None => None,
        },
        next_index: current.next_index.clone(),
        match_index: current.match_index.clone(),
        election_timeout_ms: current.election_timeout_ms,
        last_heartbeat: current.last_heartbeat,
    }
}

} // verus!
