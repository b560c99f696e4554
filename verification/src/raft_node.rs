//! The protocol core of a node: each decision of Raft as a step from the node's state
//! and an event to its next state and what it has to send.

use vstd::prelude::*;

use crate::clock::{now, random_between};
use crate::error::{RaftError, RaftResult};
use crate::rpc::{AppendEntries, AppendResponse, VoteRequest, VoteRequestView, VoteResponse};
use crate::state::{opt_id_view, vote_count, RaftState};
use crate::{entries_view, ElectionOutcome, LogEntry, LogEntryView, NodeRole};

verus! {

/// The index of the last entry of a log, 0 for an empty log.
pub open spec fn last_log_index_of(log: Seq<LogEntry>) -> u64 {
    if log.len() == 0 {
        0
    } else {
        log.last().idx
    }
}

/// The term of the last entry of a log, 0 for an empty log.
pub open spec fn last_log_term_of(log: Seq<LogEntry>) -> u64 {
    if log.len() == 0 {
        0
    } else {
        log.last().term
    }
}

/// The views of a sequence of node ids.
pub open spec fn ids_view(ids: Seq<String>) -> Seq<Seq<char>> {
    ids.map_values(|s: String| s@)
}

/// The term a node holds after it has seen `seen`: the larger of the two.
pub open spec fn term_after(current: u64, seen: u64) -> u64 {
    if seen > current {
        seen
    } else {
        current
    }
}

/// What a node's vote depends on.
pub ghost struct VoterView {
    pub role: NodeRole,
    pub current_term: u64,
    pub voted_for: Option<Seq<char>>,
    pub last_log_index: u64,
    pub last_log_term: u64,
}

/// A voter that has seen `term`: with a higher term it becomes a follower in that
/// term and forgets its vote.
pub open spec fn observe_term(v: VoterView, term: u64) -> VoterView {
    if term > v.current_term {
        VoterView { role: NodeRole::Follower, current_term: term, voted_for: None, ..v }
    } else {
        v
    }
}

/// Whether a voter grants a vote request: after seeing the request's term, it has
/// voted for no other candidate, the candidate's last entry is at least as far in
/// term and in index as its own, and the request's term is not stale.
pub open spec fn vote_granted(v: VoterView, req: VoteRequestView) -> bool {
    let w = observe_term(v, req.term);
    &&& (w.voted_for is None || w.voted_for == Some(req.candidate))
    &&& req.last_log_term >= w.last_log_term
    &&& req.last_log_index >= w.last_log_index
    &&& req.term >= w.current_term
}

/// A voter after answering a vote request.
pub open spec fn after_vote(v: VoterView, req: VoteRequestView) -> VoterView {
    let w = observe_term(v, req.term);
    if vote_granted(v, req) {
        VoterView { voted_for: Some(req.candidate), ..w }
    } else {
        w
    }
}

/// An event that changes what a node's vote depends on.
pub ghost enum VoterEvent {
    /// The node answers a vote request.
    Vote(VoteRequestView),
    /// The node starts an election as the candidate with this id.
    StartElection(Seq<char>),
    /// The node sees a message of this term (stepping down if it is higher), and
    /// its log's last entry becomes the one given.
    Observe { term: u64, last_log_index: u64, last_log_term: u64 },
    /// The node wins its election.
    Win,
    /// The node's election ends without a majority.
    Lose,
}

/// A voter after an event.
pub open spec fn voter_step(v: VoterView, e: VoterEvent) -> VoterView {
    match e {
        VoterEvent::Vote(req) => after_vote(v, req),
        VoterEvent::StartElection(id) => if v.current_term < u64::MAX {
            VoterView {
                role: NodeRole::Candidate,
                current_term: (v.current_term + 1) as u64,
                voted_for: Some(id),
                ..v
            }
        } else {
            v
        },
        VoterEvent::Observe { term, last_log_index, last_log_term } => VoterView {
            last_log_index,
            last_log_term,
            ..observe_term(v, term)
        },
        VoterEvent::Win => VoterView { role: NodeRole::Leader, ..v },
        VoterEvent::Lose => if v.role == NodeRole::Leader {
            v
        } else {
            VoterView { role: NodeRole::Follower, ..v }
        },
    }
}

/// The vote that a voter casts in an event, if any: its term and its candidate.
/// A granted vote request casts a vote in the answer's term; starting an election
/// casts the node's vote for itself in the new term.
pub open spec fn vote_cast(v: VoterView, e: VoterEvent) -> Option<(u64, Seq<char>)> {
    match e {
        VoterEvent::Vote(req) => if vote_granted(v, req) {
            Some((after_vote(v, req).current_term, req.candidate))
        } else {
            None
        },
        VoterEvent::StartElection(id) => if v.current_term < u64::MAX {
            Some(((v.current_term + 1) as u64, id))
        } else {
            None
        },
        _ => None,
    }
}

/// A voter after the events of `events` in order.
pub open spec fn replay(v: VoterView, events: Seq<VoterEvent>) -> VoterView
    decreases events.len(),
{
    if events.len() == 0 {
        v
    } else {
        voter_step(replay(v, events.drop_last()), events.last())
    }
}

/// The vote cast in the `i`-th event of `events`, after those before it.
pub open spec fn cast_at(v: VoterView, events: Seq<VoterEvent>, i: int) -> Option<
    (u64, Seq<char>),
> {
    vote_cast(replay(v, events.take(i)), events[i])
}

/// No event lowers a voter's term, and a granted vote request leaves the voter in
/// the request's term.
pub proof fn lemma_vote_keeps_term_monotone(v: VoterView, e: VoterEvent)
    ensures
        voter_step(v, e).current_term >= v.current_term,
        vote_cast(v, e) matches Some((t, _)) ==> voter_step(v, e).current_term == t,
{
}

/// Once a voter holds term `t` with a vote for `c`, any event leaves it past `t`,
/// or at `t` still voting for `c`.
proof fn lemma_vote_stays(s: VoterView, e: VoterEvent, t: u64, c: Seq<char>)
    requires
        s.current_term > t || (s.current_term == t && s.voted_for == Some(c)),
    ensures
        ({
            let s2 = voter_step(s, e);
            s2.current_term > t || (s2.current_term == t && s2.voted_for == Some(c))
        }),
{
}

/// The voter after the first `k` events, for `k` past an event `i` that cast a vote,
/// is past that vote's term, or in it still voting for that candidate.
proof fn lemma_vote_persists(v: VoterView, events: Seq<VoterEvent>, i: int, k: int)
    requires
        0 <= i < k <= events.len(),
        cast_at(v, events, i) is Some,
    ensures
        ({
            let s = replay(v, events.take(k));
            let (t, c) = cast_at(v, events, i)->0;
            s.current_term > t || (s.current_term == t && s.voted_for == Some(c))
        }),
    decreases k - i,
{
    assert(events.take(k).drop_last() =~= events.take(k - 1));
    assert(events.take(k).last() == events[k - 1]);
    if k > i + 1 {
        lemma_vote_persists(v, events, i, k - 1);
        let (t, c) = cast_at(v, events, i)->0;
        lemma_vote_stays(replay(v, events.take(k - 1)), events[k - 1], t, c);
    }
}

/// A vote request is granted only to a candidate whose last log entry is at least as
/// far in index and in term as the voter's, in a term no older than the voter's;
/// whenever that holds and the voter, after seeing the request's term, has voted for
/// no other candidate, it is granted.
pub proof fn lemma_vote_granted_needs_up_to_date_log(v: VoterView, req: VoteRequestView)
    ensures
        vote_granted(v, req) ==> {
            &&& req.last_log_index >= v.last_log_index
            &&& req.last_log_term >= v.last_log_term
            &&& req.term >= v.current_term
        },
        (req.last_log_index >= v.last_log_index && req.last_log_term >= v.last_log_term
            && req.term >= v.current_term && (req.term > v.current_term || v.voted_for is None
            || v.voted_for == Some(req.candidate))) ==> vote_granted(v, req),
{
}

/// A node votes for at most one candidate in each term: in any run of vote
/// requests, elections of its own, messages seen, wins and losses, two votes that
/// it casts in the same term are for the same candidate.
pub proof fn lemma_one_vote_per_term(v: VoterView, events: Seq<VoterEvent>, i: int, j: int)
    requires
        0 <= i < j < events.len(),
        cast_at(v, events, i) matches Some((t1, _)) && cast_at(v, events, j) matches Some((t2, _))
            && t1 == t2,
    ensures
        cast_at(v, events, i) matches Some((_, c1)) && cast_at(v, events, j) matches Some((_, c2))
            && c1 == c2,
{
    lemma_vote_persists(v, events, i, j);
}

/// A log with `entries` written from position `start` on: positions before `start`
/// and after the last new entry keep their entries, and the log grows where the new
/// entries reach past its end.
pub open spec fn overlay(log: Seq<LogEntryView>, start: int, entries: Seq<LogEntryView>) -> Seq<
    LogEntryView,
> {
    let len = if start + entries.len() > log.len() {
        start + entries.len()
    } else {
        log.len() as int
    };
    Seq::new(
        len as nat,
        |i: int|
            if start <= i < start + entries.len() {
                entries[i - start]
            } else {
                log[i]
            },
    )
}

/// Writing entries from a position no further than the log's end places each new
/// entry at its position, keeps every entry before that position, and makes the
/// log reach at least past the last new entry.
pub proof fn lemma_overlay_places_entries(
    log: Seq<LogEntryView>,
    start: int,
    entries: Seq<LogEntryView>,
)
    requires
        0 <= start <= log.len(),
    ensures
        overlay(log, start, entries).len() >= log.len(),
        overlay(log, start, entries).len() >= start + entries.len(),
        forall|i: int| 0 <= i < start ==> #[trigger] overlay(log, start, entries)[i] == log[i],
        forall|k: int|
            0 <= k < entries.len() ==> #[trigger] overlay(log, start, entries)[start + k]
                == entries[k],
        forall|i: int|
            start + entries.len() <= i < log.len() ==> #[trigger] overlay(log, start, entries)[i]
                == log[i],
{
}

/// Whether an append request fits the follower's log: the request's term is not stale
/// and it starts the log afresh, or the log holds the request's previous entry with
/// the request's previous term.
pub open spec fn append_consistent(log: Seq<LogEntry>, current_term: u64, m: AppendEntries) -> bool {
    ||| (m.term >= current_term && m.prev_log_index == 0)
    ||| (m.prev_log_index != 0 && m.prev_log_index <= log.len() && log[m.prev_log_index - 1].term
        == m.prev_log_term)
}

/// An append request with entries that names a previous entry (index at least 1)
/// fits the log exactly when the log holds an entry at that (1-based) index with the
/// named term; one that names none (index 0) fits exactly when its term is not stale.
pub proof fn lemma_append_checks_previous_entry(log: Seq<LogEntry>, current_term: u64, m: AppendEntries)
    ensures
        m.prev_log_index >= 1 ==> (append_consistent(log, current_term, m) <==> (m.prev_log_index
            <= log.len() && log[m.prev_log_index - 1].term == m.prev_log_term)),
        m.prev_log_index == 0 ==> (append_consistent(log, current_term, m) <==> m.term
            >= current_term),
{
}

/// The smaller of two `u64`s.
pub open spec fn min_u64(a: u64, b: u64) -> u64 {
    if a < b {
        a
    } else {
        b
    }
}

/// The larger of two `u64`s.
pub open spec fn max_u64(a: u64, b: u64) -> u64 {
    if a > b {
        a
    } else {
        b
    }
}

/// The smallest number of nodes that is a majority of `cluster_size` nodes.
pub open spec fn majority(cluster_size: nat) -> nat {
    cluster_size / 2 + 1
}

/// `majority(n)` is the least number of nodes that is more than half of `n`.
pub proof fn lemma_majority_is_least(n: nat)
    ensures
        2 * majority(n) > n,
        2 * (majority(n) - 1) <= n,
        majority(n) >= 1,
{
}

/// Any two majorities of a cluster share a node: whatever two sets of nodes of the
/// cluster each hold at least `majority(n)` of its `n` nodes, some node is in both.
pub proof fn lemma_majorities_intersect<A>(cluster: Set<A>, a: Set<A>, b: Set<A>)
    requires
        cluster.finite(),
        a.subset_of(cluster),
        b.subset_of(cluster),
        a.len() >= majority(cluster.len()),
        b.len() >= majority(cluster.len()),
    ensures
        exists|x: A| a.contains(x) && b.contains(x),
{
    vstd::set_lib::lemma_len_subset(a, cluster);
    vstd::set_lib::lemma_len_subset(b, cluster);
    vstd::set_lib::lemma_len_subset(a.union(b), cluster);
    vstd::set_lib::lemma_set_intersect_union_lens(a, b);
    let both = a.intersect(b);
    assert(both.len() != 0);
    vstd::set::axiom_set_choose_len(both);
    assert(a.contains(both.choose()) && b.contains(both.choose()));
}

/// What the leader's heartbeat task has to do.
#[derive(Debug, Clone, Copy, PartialEq, Eq, Structural)]
pub enum HeartbeatAction {
    /// Start sending heartbeats.
    Start,
    /// Stop any heartbeats being sent.
    Stop,
}

/// Where the replication of an entry stands.
#[derive(Debug, Clone, Copy, PartialEq, Eq, Structural)]
pub enum ReplicationProgress {
    /// A majority holds the entry; the commit index has advanced.
    Committed,
    /// `successes` nodes (this one included) hold the entry so far.
    Pending { successes: usize },
}

/// The protocol core of a node: its id, its state, its cluster and its log.
#[derive(Debug)]
pub struct RaftCore {
    /// Unique identifier for this node.
    pub id: String,
    /// The protocol state.
    pub state: RaftState,
    /// The ids of all nodes of the cluster, this one included.
    pub peers: Vec<String>,
    /// Replicated log of commands.
    pub log: Vec<LogEntry>,
}

impl RaftCore {
    /// What the node's vote depends on.
    pub open spec fn voter(&self) -> VoterView {
        VoterView {
            role: self.state.role,
            current_term: self.state.current_term,
            voted_for: opt_id_view(self.state.voted_for),
            last_log_index: last_log_index_of(self.log@),
            last_log_term: last_log_term_of(self.log@),
        }
    }

    /// Each node of the cluster is named once.
    pub open spec fn peers_distinct(&self) -> bool {
        ids_view(self.peers@).no_duplicates()
    }

    /// Same id, cluster and log as `other`.
    pub open spec fn same_node(&self, other: &RaftCore) -> bool {
        &&& self.id == other.id
        &&& self.peers == other.peers
        &&& self.log == other.log
    }

    /// Creates a node that starts as a follower in term 0, with an empty log and an
    /// election timeout drawn at random between 150 and 300 milliseconds. `peers`
    /// names each node of the cluster once, this one included.
    pub fn new(id: String, peers: Vec<String>) -> (node: Self)
        requires
            ids_view(peers@).no_duplicates(),
        ensures
            node.id == id,
            node.peers == peers,
            node.peers_distinct(),
            node.log@.len() == 0,
            node.state.is_initial(),
            150 <= node.state.election_timeout_ms <= 300,
    {
        let timeout = random_between(150, 300);
        RaftCore {
            id,
            state: RaftState {
                role: NodeRole::Follower,
                current_term: 0,
                commit_index: 0,
                last_applied: 0,
                votes_received: 0,
                voted_for: None,
                next_index: std::collections::HashMap::new(),
                match_index: std::collections::HashMap::new(),
                election_timeout_ms: timeout,
                last_heartbeat: now(),
            },
            peers,
            log: Vec::new(),
        }
    }

    /// A random election timeout between 150 and 350 milliseconds, so that nodes
    /// do not all time out at once.
    pub fn get_random_election_timeout() -> (ms: u64)
        ensures
            150 <= ms <= 350,
    {
        random_between(150, 350)
    }

    /// The term of the last log entry, or 0 if the log is empty.
    pub fn get_last_log_term(&self) -> (t: u64)
        ensures
            t == last_log_term_of(self.log@),
    {
        if self.log.len() == 0 {
            0
        } else {
            self.log[self.log.len() - 1].term
        }
    }

    /// The index of the last log entry, or 0 if the log is empty.
    pub fn get_last_log_index(&self) -> (i: u64)
        ensures
            i == last_log_index_of(self.log@),
    {
        if self.log.len() == 0 {
            0
        } else {
            self.log[self.log.len() - 1].idx
        }
    }

    /// The number of votes, this node's own included, that wins an election or
    /// commits an entry: a majority of the cluster.
    pub fn needed_votes(&self) -> (n: usize)
        ensures
            n == majority(self.peers@.len()),
            2 * n > self.peers@.len(),
            2 * (n - 1) <= self.peers@.len(),
    {
        self.peers.len() / 2 + 1
    }

    /// Answers a vote request. A request with a higher term first makes this node a
    /// follower in that term with no vote and no votes counted. The vote is then
    /// granted if this node has not voted for another candidate, the candidate's log
    /// is at least as up-to-date as its own, and the term is not stale; granting
    /// records the vote and counts as a heartbeat. The answer carries the node's term.
    pub fn handle_vote_request(&mut self, message: &VoteRequest) -> (r: RaftResult<VoteResponse>)
        ensures
            final(self).voter() == voter_step(old(self).voter(), VoterEvent::Vote(message@)),
            final(self).voter() == after_vote(old(self).voter(), message@),
            final(self).same_node(old(self)),
            final(self).state.same_bookkeeping(&old(self).state),
            final(self).state.votes_received == if message.term > old(self).state.current_term {
                0
            } else {
                old(self).state.votes_received
            },
            r matches Ok(resp) && resp == (VoteResponse {
                term: final(self).state.current_term,
                vote_granted: vote_granted(old(self).voter(), message@),
            }),
            r matches Ok(resp) && (resp.vote_granted ==> {
                &&& message.last_log_index >= last_log_index_of(old(self).log@)
                &&& message.last_log_term >= last_log_term_of(old(self).log@)
                &&& message.term >= old(self).state.current_term
                &&& opt_id_view(final(self).state.voted_for) == Some(message.candidate_id@)
            }),
            final(self).state.current_term >= old(self).state.current_term,
            !vote_granted(old(self).voter(), message@) ==> final(self).state.last_heartbeat == old(
                self,
            ).state.last_heartbeat,
    {
        if message.term > self.state.current_term {
            self.state.role = NodeRole::Follower;
            self.state.current_term = message.term;
            self.state.voted_for = None;
            self.state.votes_received = 0;
        }
        let last_index = self.get_last_log_index();
        let last_term = self.get_last_log_term();
        let granted = self.state.should_grant_vote(
            message.term,
            last_index,
            last_term,
            message.last_log_index,
            message.last_log_term,
            &message.candidate_id,
        );
        if granted {
            self.state.voted_for = Some(message.candidate_id.clone());
            self.state.last_heartbeat = now();
        }
        Ok(VoteResponse { term: self.state.current_term, vote_granted: granted })
    }

    /// Answers an append request from a leader, a heartbeat when it has no entries.
    /// A request with a higher term first makes this node a follower in that term
    /// with no vote and no votes counted. A heartbeat is counted and answered with
    /// success. Otherwise, when the request fits the log (see `append_consistent`),
    /// the entries are written into the log from position `prev_log_index` on, and
    /// the commit index moves to the smaller of the leader's commit index and the last
    /// new entry's index when the leader's is higher. The answer carries the node's
    /// term.
    pub fn handle_append_entries(&mut self, message: &AppendEntries) -> (r: AppendResponse)
        ensures
            final(self).voter() == voter_step(
                old(self).voter(),
                VoterEvent::Observe {
                    term: message.term,
                    last_log_index: last_log_index_of(final(self).log@),
                    last_log_term: last_log_term_of(final(self).log@),
                },
            ),
            final(self).id == old(self).id,
            final(self).peers == old(self).peers,
            final(self).state.current_term == term_after(
                old(self).state.current_term,
                message.term,
            ),
            final(self).state.role == if message.term > old(self).state.current_term {
                NodeRole::Follower
            } else {
                old(self).state.role
            },
            opt_id_view(final(self).state.voted_for) == if message.term > old(
                self,
            ).state.current_term {
                None
            } else {
                opt_id_view(old(self).state.voted_for)
            },
            final(self).state.votes_received == if message.term > old(self).state.current_term {
                0
            } else {
                old(self).state.votes_received
            },
            final(self).state.last_applied == old(self).state.last_applied,
            final(self).state.next_index@ == old(self).state.next_index@,
            final(self).state.match_index@ == old(self).state.match_index@,
            final(self).state.election_timeout_ms == old(self).state.election_timeout_ms,
            r.term == final(self).state.current_term,
            final(self).state.current_term >= old(self).state.current_term,
            message.entries@.len() == 0 ==> {
                &&& r.success
                &&& final(self).log == old(self).log
                &&& final(self).state.commit_index == old(self).state.commit_index
            },
            message.entries@.len() != 0 && message.prev_log_index >= 1 ==> (r.success <==> (
            message.prev_log_index <= old(self).log@.len() && old(self).log@[message.prev_log_index
                - 1].term == message.prev_log_term)),
            message.entries@.len() != 0 && message.prev_log_index == 0 ==> (r.success <==> message.term
                >= old(self).state.current_term),
            !r.success ==> final(self).log == old(self).log,
            message.entries@.len() != 0 ==> {
                &&& final(self).state.last_heartbeat == old(self).state.last_heartbeat
                &&& r.success == append_consistent(
                    old(self).log@,
                    final(self).state.current_term,
                    *message,
                )
                &&& r.success ==> entries_view(final(self).log@) == overlay(
                    entries_view(old(self).log@),
                    message.prev_log_index as int,
                    entries_view(message.entries@),
                )
                &&& !r.success ==> final(self).log == old(self).log
                &&& final(self).state.commit_index == if r.success && message.leader_commit > old(
                    self,
                ).state.commit_index {
                    min_u64(message.leader_commit, message.entries@.last().idx)
                } else {
                    old(self).state.commit_index
                }
            },
    {
        if message.term > self.state.current_term {
            self.state.current_term = message.term;
            self.state.role = NodeRole::Follower;
            self.state.voted_for = None;
            self.state.votes_received = 0;
        }
        if message.entries.len() == 0 {
            self.state.last_heartbeat = now();
            return AppendResponse { term: self.state.current_term, success: true };
        }
        let prev = message.prev_log_index;
        let success = if prev == 0 {
            message.term >= self.state.current_term
        } else if prev <= self.log.len() as u64 {
            self.log[(prev - 1) as usize].term == message.prev_log_term
        } else {
            false
        };
        if success {
            write_entries(&mut self.log, prev as usize, &message.entries);
            if message.leader_commit > self.state.commit_index {
                let last_idx = message.entries[message.entries.len() - 1].idx;
                self.state.commit_index = if message.leader_commit < last_idx {
                    message.leader_commit
                } else {
                    last_idx
                };
            }
        }
        AppendResponse { term: self.state.current_term, success }
    }

    /// Starts an election: this node becomes a candidate in the next term, votes for
    /// itself (its own vote being the only one counted) and counts the start as a
    /// heartbeat. Where its own vote is already a majority of the cluster, it wins at
    /// once and becomes leader. Returns the vote request to send to every other node,
    /// and whether the election is won. The cluster must name each node once, so that
    /// no node is asked, or counted, twice.
    pub fn begin_election(&mut self) -> (r: (VoteRequest, ElectionOutcome))
        requires
            old(self).state.current_term < u64::MAX,
            old(self).peers_distinct(),
        ensures
            final(self).same_node(old(self)),
            final(self).state.current_term == old(self).state.current_term + 1,
            final(self).state.votes_received == 1,
            opt_id_view(final(self).state.voted_for) == Some(old(self).id@),
            final(self).state.same_bookkeeping(&old(self).state),
            r.1 == if majority(old(self).peers@.len()) <= 1 {
                ElectionOutcome::Won
            } else {
                ElectionOutcome::Continue
            },
            final(self).state.role == if r.1 == ElectionOutcome::Won {
                NodeRole::Leader
            } else {
                NodeRole::Candidate
            },
            final(self).voter() == if r.1 == ElectionOutcome::Won {
                voter_step(
                    voter_step(old(self).voter(), VoterEvent::StartElection(old(self).id@)),
                    VoterEvent::Win,
                )
            } else {
                voter_step(old(self).voter(), VoterEvent::StartElection(old(self).id@))
            },
            r.0@ == (VoteRequestView {
                term: final(self).state.current_term,
                candidate: final(self).id@,
                last_log_index: last_log_index_of(final(self).log@),
                last_log_term: last_log_term_of(final(self).log@),
            }),
    {
        self.state.role = NodeRole::Candidate;
        self.state.current_term = self.state.current_term + 1;
        self.state.votes_received = 1;
        self.state.voted_for = Some(self.id.clone());
        self.state.last_heartbeat = now();
        let request = VoteRequest {
            term: self.state.current_term,
            candidate_id: self.id.clone(),
            last_log_index: self.get_last_log_index(),
            last_log_term: self.get_last_log_term(),
        };
        if self.needed_votes() <= 1 {
            let _ = self.become_leader();
            (request, ElectionOutcome::Won)
        } else {
            (request, ElectionOutcome::Continue)
        }
    }

    /// Counts one vote response of the election under way. A higher term makes this
    /// node step down to it; a granted vote is counted, and once a majority of the
    /// cluster has voted for it the node becomes leader.
    pub fn on_vote_response(&mut self, response: &VoteResponse) -> (r: ElectionOutcome)
        requires
            response.term <= old(self).state.current_term && response.vote_granted ==> old(
                self,
            ).state.votes_received < u64::MAX,
        ensures
            final(self).same_node(old(self)),
            final(self).state.same_bookkeeping(&old(self).state),
            final(self).state.current_term >= old(self).state.current_term,
            final(self).voter() == match r {
                ElectionOutcome::StepDown { new_term } => voter_step(
                    old(self).voter(),
                    VoterEvent::Observe {
                        term: new_term,
                        last_log_index: last_log_index_of(old(self).log@),
                        last_log_term: last_log_term_of(old(self).log@),
                    },
                ),
                ElectionOutcome::Won => voter_step(old(self).voter(), VoterEvent::Win),
                ElectionOutcome::Continue => old(self).voter(),
            },
            response.term > old(self).state.current_term ==> {
                &&& r == (ElectionOutcome::StepDown { new_term: response.term })
                &&& final(self).state.role == NodeRole::Follower
                &&& final(self).state.current_term == response.term
                &&& final(self).state.voted_for is None
                &&& final(self).state.votes_received == 0
            },
            response.term <= old(self).state.current_term ==> {
                &&& final(self).state.current_term == old(self).state.current_term
                &&& final(self).state.last_heartbeat == old(self).state.last_heartbeat
                &&& opt_id_view(final(self).state.voted_for) == opt_id_view(
                    old(self).state.voted_for,
                )
                &&& final(self).state.votes_received == old(self).state.votes_received + if response.vote_granted {
                    1int
                } else {
                    0int
                }
                &&& r == if response.vote_granted && vote_count(final(self).state.votes_received)
                    >= majority(old(self).peers@.len()) {
                    ElectionOutcome::Won
                } else {
                    ElectionOutcome::Continue
                }
                &&& final(self).state.role == if r == ElectionOutcome::Won {
                    NodeRole::Leader
                } else {
                    old(self).state.role
                }
            },
    {
        let needed = self.needed_votes();
        let outcome = self.state.process_vote_response(response, needed);
        match outcome {
            ElectionOutcome::StepDown { new_term } => {
                let _ = self.step_down(new_term);
            },
            ElectionOutcome::Won => {
                let _ = self.become_leader();
            },
            ElectionOutcome::Continue => {},
        }
        outcome
    }

    /// Ends an election in which no majority was reached: unless this node has become
    /// leader, it returns to follower with no votes counted. The vote it cast in its
    /// term stands. The election has failed either way.
    pub fn lose_election(&mut self) -> (r: RaftResult<()>)
        ensures
            r matches Err(RaftError::ElectionFailure),
            final(self).same_node(old(self)),
            final(self).state.same_bookkeeping(&old(self).state),
            final(self).voter() == voter_step(old(self).voter(), VoterEvent::Lose),
            final(self).state.current_term == old(self).state.current_term,
            final(self).state.last_heartbeat == old(self).state.last_heartbeat,
            opt_id_view(final(self).state.voted_for) == opt_id_view(old(self).state.voted_for),
            old(self).state.role == NodeRole::Leader ==> {
                &&& final(self).state.role == NodeRole::Leader
                &&& final(self).state.votes_received == old(self).state.votes_received
            },
            old(self).state.role != NodeRole::Leader ==> {
                &&& final(self).state.role == NodeRole::Follower
                &&& final(self).state.votes_received == 0
            },
    {
        match self.state.role {
            NodeRole::Leader => {},
            _ => {
                self.state.role = NodeRole::Follower;
                self.state.votes_received = 0;
            },
        }
        Err(RaftError::ElectionFailure)
    }

    /// Makes this node leader; everything else stays as it is.
    pub fn become_leader(&mut self) -> (r: RaftResult<()>)
        ensures
            r is Ok,
            *final(self) == (RaftCore {
                state: RaftState { role: NodeRole::Leader, ..old(self).state },
                ..*old(self)
            }),
            final(self).voter() == voter_step(old(self).voter(), VoterEvent::Win),
    {
        self.state.role = NodeRole::Leader;
        Ok(())
    }

    /// Steps down to follower at `new_term`, a term higher than this node's: no
    /// vote, no votes counted, and a fresh heartbeat.
    pub fn step_down(&mut self, new_term: u64) -> (r: RaftResult<()>)
        requires
            new_term > old(self).state.current_term,
        ensures
            r is Ok,
            final(self).voter() == voter_step(
                old(self).voter(),
                VoterEvent::Observe {
                    term: new_term,
                    last_log_index: last_log_index_of(old(self).log@),
                    last_log_term: last_log_term_of(old(self).log@),
                },
            ),
            final(self).same_node(old(self)),
            final(self).state.same_bookkeeping(&old(self).state),
            final(self).state.role == NodeRole::Follower,
            final(self).state.current_term == new_term,
            final(self).state.voted_for is None,
            final(self).state.votes_received == 0,
    {
        self.state.role = NodeRole::Follower;
        self.state.voted_for = None;
        self.state.current_term = new_term;
        self.state.last_heartbeat = now();
        self.state.votes_received = 0;
        Ok(())
    }

    /// What the heartbeat task must do in this node's role: a leader sends
    /// heartbeats, a follower or a candidate stops them. Asked after any step that
    /// may have made the node step down, it says to stop them.
    pub fn heartbeat_action(&self) -> (a: HeartbeatAction)
        ensures
            (a == HeartbeatAction::Start) == (self.state.role == NodeRole::Leader),
            (a == HeartbeatAction::Stop) == (self.state.role != NodeRole::Leader),
    {
        match self.state.role {
            NodeRole::Leader => HeartbeatAction::Start,
            _ => HeartbeatAction::Stop,
        }
    }

    /// The heartbeat a leader sends: an append request with no entries, in its
    /// term, naming its last log entry as previous one, with its commit index.
    pub fn leader_heartbeat_request(&self) -> (m: AppendEntries)
        ensures
            m.term == self.state.current_term,
            m.leader_id@ == self.id@,
            m.prev_log_index == last_log_index_of(self.log@),
            m.prev_log_term == last_log_term_of(self.log@),
            m.entries@.len() == 0,
            m.leader_commit == self.state.commit_index,
    {
        AppendEntries {
            term: self.state.current_term,
            leader_id: self.id.clone(),
            prev_log_index: self.get_last_log_index(),
            prev_log_term: self.get_last_log_term(),
            entries: Vec::new(),
            leader_commit: self.state.commit_index,
        }
    }

    /// The ids of the cluster's other nodes, in the cluster's order; each once where
    /// the cluster names each node once.
    pub fn peers_except_self(&self) -> (others: Vec<String>)
        ensures
            ids_view(others@) == ids_view(self.peers@).filter(|p: Seq<char>| p != self.id@),
            self.peers_distinct() ==> ids_view(others@).no_duplicates(),
    {
        let ghost keep = |p: Seq<char>| p != self.id@;
        let mut others: Vec<String> = Vec::new();
        let mut i: usize = 0;
        while i < self.peers.len()
            invariant
                i <= self.peers@.len(),
                keep == (|p: Seq<char>| p != self.id@),
                ids_view(others@) == ids_view(self.peers@).take(i as int).filter(keep),
            decreases self.peers@.len() - i,
        {
            proof {
                ids_view(self.peers@).take(i as int).lemma_filter_push(self.peers@[i as int]@, keep);
                assert(ids_view(self.peers@).take(i as int).push(self.peers@[i as int]@)
                    =~= ids_view(self.peers@).take(i + 1));
            }
            if self.peers[i] != self.id {
                let ghost prior = ids_view(others@);
                others.push(self.peers[i].clone());
                assert(ids_view(others@) =~= prior.push(self.peers@[i as int]@));
            }
            i = i + 1;
        }
        assert(ids_view(self.peers@).take(self.peers@.len() as int) =~= ids_view(self.peers@));
        proof {
            if self.peers_distinct() {
                lemma_filter_keeps_distinct(ids_view(self.peers@), keep);
            }
        }
        others
    }

    /// The request that replicates the entry at (1-based) `index` of the log: that
    /// entry alone, in this node's term, with this node's commit index, naming as
    /// previous entry the one before it: index `index - 1` and that entry's term, or
    /// index 0 and term 0 for the first entry.
    pub fn replication_request(&self, index: u64) -> (m: AppendEntries)
        requires
            1 <= index <= self.log@.len(),
        ensures
            m.term == self.state.current_term,
            m.leader_id@ == self.id@,
            m.prev_log_index == index - 1,
            m.prev_log_term == if index > 1 {
                self.log@[index - 2].term
            } else {
                0
            },
            entries_view(m.entries@) == seq![self.log@[index - 1]@],
            m.leader_commit == self.state.commit_index,
    {
        let len = self.log.len();
        let pos: usize = (index - 1) as usize;
        assert(pos == index - 1 && pos < len);
        let entry = self.log[pos].clone();
        let mut entries: Vec<LogEntry> = Vec::new();
        entries.push(entry);
        assert(entries@[0]@ == self.log@[index - 1]@);
        let prev_log_term = if pos > 0 {
            self.log[pos - 1].term
        } else {
            0
        };
        let m = AppendEntries {
            term: self.state.current_term,
            leader_id: self.id.clone(),
            prev_log_index: index - 1,
            prev_log_term,
            entries,
            leader_commit: self.state.commit_index,
        };
        assert(entries_view(m.entries@) =~= seq![self.log@[index - 1]@]);
        m
    }

    /// Marks the entry at `index` committed: the commit index becomes the larger of
    /// its value and `index`.
    fn commit_through(&mut self, index: u64)
        ensures
            *final(self) == (RaftCore {
                state: RaftState {
                    commit_index: if index > old(self).state.commit_index {
                        index
                    } else {
                        old(self).state.commit_index
                    },
                    ..old(self).state
                },
                ..*old(self)
            }),
    {
        if index > self.state.commit_index {
            self.state.commit_index = index;
        }
    }

    /// Starts the replication of the entry at `index`, which this node holds: where
    /// its own copy is already a majority of the cluster, the entry is committed at
    /// once (the commit index becomes at least `index`); otherwise one node (this
    /// one) holds it so far. The cluster must name each node once, so that no node is
    /// asked, or counted, twice.
    pub fn begin_replication(&mut self, index: u64) -> (r: ReplicationProgress)
        requires
            old(self).peers_distinct(),
        ensures
            majority(old(self).peers@.len()) <= 1 ==> r == ReplicationProgress::Committed
                && *final(self) == (RaftCore {
                state: RaftState {
                    commit_index: max_u64(old(self).state.commit_index, index),
                    ..old(self).state
                },
                ..*old(self)
            }),
            majority(old(self).peers@.len()) > 1 ==> r == (ReplicationProgress::Pending {
                successes: 1,
            }) && *final(self) == *old(self),
    {
        if self.needed_votes() <= 1 {
            self.commit_through(index);
            ReplicationProgress::Committed
        } else {
            ReplicationProgress::Pending { successes: 1 }
        }
    }

    /// Counts one answer to the replication of the entry at `index`, given how many
    /// nodes (this one included) held it before. An acknowledgement is counted; once a
    /// majority of the cluster holds the entry, it is committed: the commit index
    /// becomes at least `index`.
    pub fn on_replication_result(&mut self, index: u64, successes: usize, acknowledged: bool) -> (r:
        ReplicationProgress)
        requires
            acknowledged ==> successes < usize::MAX,
        ensures
            !acknowledged ==> r == (ReplicationProgress::Pending { successes }) && *final(self)
                == *old(self),
            acknowledged && successes + 1 < majority(old(self).peers@.len()) ==> r == (
            ReplicationProgress::Pending { successes: (successes + 1) as usize }) && *final(self)
                == *old(self),
            acknowledged && successes + 1 >= majority(old(self).peers@.len()) ==> r
                == ReplicationProgress::Committed && *final(self) == (RaftCore {
                state: RaftState {
                    commit_index: max_u64(old(self).state.commit_index, index),
                    ..old(self).state
                },
                ..*old(self)
            }),
    {
        if !acknowledged {
            return ReplicationProgress::Pending { successes };
        }
        let count = successes + 1;
        if count >= self.needed_votes() {
            self.commit_through(index);
            ReplicationProgress::Committed
        } else {
            ReplicationProgress::Pending { successes: count }
        }
    }
}

/// Keeping some elements of a sequence without repeats gives a sequence without
/// repeats.
proof fn lemma_filter_keeps_distinct<A>(s: Seq<A>, p: spec_fn(A) -> bool)
    requires
        s.no_duplicates(),
    ensures
        s.filter(p).no_duplicates(),
    decreases s.len(),
{
    if s.len() > 0 {
        let rest = s.drop_last();
        let x = s.last();
        assert(rest.no_duplicates());
        lemma_filter_keeps_distinct(rest, p);
        assert(s =~= rest.push(x));
        rest.lemma_filter_push(x, p);
        if p(x) {
            if rest.filter(p).contains(x) {
                rest.lemma_filter_contains_rev(p, x);
                let k = choose|k: int| 0 <= k < rest.len() && rest[k] == x;
                assert(s[k] == s[s.len() - 1]);
            }
            let f = rest.filter(p);
            assert forall|a: int, b: int|
                0 <= a < f.push(x).len() && 0 <= b < f.push(x).len() && a != b implies f.push(
                x,
            )[a] != f.push(x)[b] by {
                if a < f.len() && b < f.len() {
                } else if a < f.len() {
                    assert(f.contains(f[a]));
                } else {
                    assert(f.contains(f[b]));
                }
            }
        }
    }
}

/// Writes `entries` into `log` from position `start` on, replacing what stands there
/// and growing the log past its end.
fn write_entries(log: &mut Vec<LogEntry>, start: usize, entries: &Vec<LogEntry>)
    requires
        start <= old(log)@.len(),
    ensures
        entries_view(final(log)@) == overlay(
            entries_view(old(log)@),
            start as int,
            entries_view(entries@),
        ),
{
    let ghost before = entries_view(log@);
    let mut j: usize = 0;
    while j < entries.len()
        invariant
            start <= before.len(),
            j <= entries@.len(),
            log@.len() == if start + j > before.len() { start + j } else { before.len() as int },
            entries_view(log@) == overlay(before, start as int, entries_view(entries@).take(j as int)),
        decreases entries@.len() - j,
    {
        let ghost prior = entries_view(log@);
        let len = log.len();
        assert(start + j <= len);
        let pos = start + j;
        let entry = entries[j].clone();
        if pos < len {
            log.set(pos, entry);
            assert(entries_view(log@) =~= prior.update(pos as int, entries[j as int]@));
        } else {
            log.push(entry);
            assert(entries_view(log@) =~= prior.push(entries[j as int]@));
        }
        j = j + 1;
        assert(entries_view(log@) =~= overlay(before, start as int, entries_view(entries@).take(j as int)));
    }
    assert(entries_view(entries@).take(entries@.len() as int) =~= entries_view(entries@));
}

} // verus!
