use raft_consensus::raft_node::{HeartbeatAction, RaftCore, ReplicationProgress};
use raft_consensus::rpc::{AppendEntries, VoteRequest, VoteResponse};
use raft_consensus::{ElectionOutcome, LogEntry, NodeRole, RaftError};

fn ids(names: &[&str]) -> Vec<String> {
    names.iter().map(|s| s.to_string()).collect()
}

fn node(id: &str) -> RaftCore {
    RaftCore::new(id.to_string(), ids(&["n1", "n2", "n3"]))
}

fn entry(term: u64, idx: u64) -> LogEntry {
    LogEntry { term, idx, command: vec![idx as u8, term as u8] }
}

fn vote(term: u64, candidate: &str, last_index: u64, last_term: u64) -> VoteRequest {
    VoteRequest {
        term,
        candidate_id: candidate.to_string(),
        last_log_index: last_index,
        last_log_term: last_term,
    }
}

fn append(term: u64, prev: u64, prev_term: u64, entries: Vec<LogEntry>, commit: u64) -> AppendEntries {
    AppendEntries {
        term,
        leader_id: "n1".to_string(),
        prev_log_index: prev,
        prev_log_term: prev_term,
        entries,
        leader_commit: commit,
    }
}

fn terms(log: &[LogEntry]) -> Vec<(u64, u64)> {
    log.iter().map(|e| (e.term, e.idx)).collect()
}

#[test]
fn new_node_is_a_follower_with_random_timeout() {
    for _ in 0..50 {
        let n = node("n1");
        assert_eq!(n.id, "n1");
        assert_eq!(n.state.role, NodeRole::Follower);
        assert_eq!(n.state.current_term, 0);
        assert!(n.log.is_empty());
        assert!((150..=300).contains(&n.state.election_timeout_ms));
        let t = RaftCore::get_random_election_timeout();
        assert!((150..=350).contains(&t));
    }
}

#[test]
fn random_timeouts_vary() {
    let draws: std::collections::HashSet<u64> =
        (0..200).map(|_| RaftCore::get_random_election_timeout()).collect();
    assert!(draws.len() > 1);
    let timeouts: std::collections::HashSet<u64> =
        (0..200).map(|_| node("n1").state.election_timeout_ms).collect();
    assert!(timeouts.len() > 1);
}

#[test]
fn last_log_index_and_term() {
    let mut n = node("n1");
    assert_eq!(n.get_last_log_index(), 0);
    assert_eq!(n.get_last_log_term(), 0);
    n.log = vec![entry(1, 1), entry(3, 2)];
    assert_eq!(n.get_last_log_index(), 2);
    assert_eq!(n.get_last_log_term(), 3);
}

#[test]
fn needed_votes_is_a_majority() {
    assert_eq!(node("n1").needed_votes(), 2);
    let five = RaftCore::new("a".to_string(), ids(&["a", "b", "c", "d", "e"]));
    assert_eq!(five.needed_votes(), 3);
    let four = RaftCore::new("a".to_string(), ids(&["a", "b", "c", "d"]));
    assert_eq!(four.needed_votes(), 3);
}

#[test]
fn vote_granted_once_per_term() {
    let mut n = node("n1");
    let r = n.handle_vote_request(&vote(1, "n2", 0, 0)).unwrap();
    assert_eq!(r, VoteResponse { term: 1, vote_granted: true });
    assert_eq!(n.state.current_term, 1);
    assert_eq!(n.state.voted_for.as_deref(), Some("n2"));
    // another candidate in the same term is refused
    let r = n.handle_vote_request(&vote(1, "n3", 0, 0)).unwrap();
    assert_eq!(r, VoteResponse { term: 1, vote_granted: false });
    assert_eq!(n.state.voted_for.as_deref(), Some("n2"));
    // the same candidate asking again is granted again
    let r = n.handle_vote_request(&vote(1, "n2", 0, 0)).unwrap();
    assert!(r.vote_granted);
    // a higher term frees the vote
    let r = n.handle_vote_request(&vote(2, "n3", 0, 0)).unwrap();
    assert_eq!(r, VoteResponse { term: 2, vote_granted: true });
    assert_eq!(n.state.voted_for.as_deref(), Some("n3"));
}

#[test]
fn vote_refused_for_stale_term_or_older_log() {
    let mut n = node("n1");
    n.state.current_term = 5;
    n.log = vec![entry(4, 1), entry(5, 2)];
    let r = n.handle_vote_request(&vote(3, "n2", 9, 9)).unwrap();
    assert_eq!(r, VoteResponse { term: 5, vote_granted: false });
    assert!(n.state.voted_for.is_none());
    let r = n.handle_vote_request(&vote(5, "n2", 1, 5)).unwrap();
    assert!(!r.vote_granted);
    let r = n.handle_vote_request(&vote(5, "n2", 2, 4)).unwrap();
    assert!(!r.vote_granted);
    let r = n.handle_vote_request(&vote(5, "n2", 2, 5)).unwrap();
    assert!(r.vote_granted);
}

#[test]
fn higher_term_vote_request_makes_leader_a_follower() {
    let mut n = node("n1");
    n.state.role = NodeRole::Leader;
    n.state.current_term = 3;
    let r = n.handle_vote_request(&vote(4, "n2", 0, 0)).unwrap();
    assert_eq!(n.state.role, NodeRole::Follower);
    assert_eq!(r.term, 4);
}

#[test]
fn heartbeat_is_accepted_and_keeps_the_log() {
    let mut n = node("n2");
    n.state.current_term = 2;
    n.log = vec![entry(1, 1)];
    let r = n.handle_append_entries(&append(3, 7, 7, vec![], 9));
    assert_eq!(r.term, 3);
    assert!(r.success);
    assert_eq!(n.state.current_term, 3);
    assert_eq!(terms(&n.log), vec![(1, 1)]);
    assert_eq!(n.state.commit_index, 0);
    // a heartbeat from an older term does not lower the term
    let r = n.handle_append_entries(&append(1, 0, 0, vec![], 0));
    assert!(r.success);
    assert_eq!(r.term, 3);
    assert_eq!(n.state.current_term, 3);
}

#[test]
fn entries_are_appended_in_order() {
    let mut n = node("n2");
    let r = n.handle_append_entries(&append(1, 0, 0, vec![entry(1, 1), entry(1, 2), entry(1, 3)], 2));
    assert!(r.success);
    assert_eq!(terms(&n.log), vec![(1, 1), (1, 2), (1, 3)]);
    assert_eq!(n.log[1].command, vec![2, 1]);
    assert_eq!(n.state.commit_index, 2);
    // consistent request overwrites from prev on and keeps what lies beyond
    let r = n.handle_append_entries(&append(2, 1, 1, vec![entry(2, 2)], 2));
    assert!(r.success);
    assert_eq!(terms(&n.log), vec![(1, 1), (2, 2), (1, 3)]);
    assert_eq!(n.state.current_term, 2);
}

#[test]
fn inconsistent_request_is_refused() {
    let mut n = node("n2");
    n.state.current_term = 2;
    n.log = vec![entry(1, 1), entry(2, 2)];
    // wrong previous term
    let r = n.handle_append_entries(&append(2, 2, 1, vec![entry(2, 3)], 0));
    assert!(!r.success);
    assert_eq!(terms(&n.log), vec![(1, 1), (2, 2)]);
    // previous index past the end
    let r = n.handle_append_entries(&append(2, 5, 2, vec![entry(2, 6)], 0));
    assert!(!r.success);
    assert_eq!(n.log.len(), 2);
}

#[test]
fn commit_index_follows_leader_up_to_last_new_entry() {
    let mut n = node("n2");
    let r = n.handle_append_entries(&append(1, 0, 0, vec![entry(1, 1), entry(1, 2)], 10));
    assert!(r.success);
    assert_eq!(n.state.commit_index, 2);
    // a refused request leaves the commit index
    let r = n.handle_append_entries(&append(1, 9, 1, vec![entry(1, 10), entry(1, 4)], 3));
    assert!(!r.success);
    assert_eq!(n.state.commit_index, 2);
    // an accepted one moves it to the smaller of the leader's and the last new index
    let r = n.handle_append_entries(&append(1, 2, 1, vec![entry(1, 3), entry(1, 4)], 3));
    assert!(r.success);
    assert_eq!(n.state.commit_index, 3);
    // a leader commit that is not higher leaves it
    n.handle_append_entries(&append(1, 4, 1, vec![entry(1, 5)], 1));
    assert_eq!(n.state.commit_index, 3);
}

#[test]
fn higher_term_append_steps_down() {
    let mut n = node("n2");
    n.state.role = NodeRole::Candidate;
    n.state.current_term = 1;
    n.state.voted_for = Some("n2".to_string());
    let r = n.handle_append_entries(&append(4, 0, 0, vec![entry(4, 1)], 0));
    assert!(r.success);
    assert_eq!(r.term, 4);
    assert_eq!(n.state.role, NodeRole::Follower);
    assert!(n.state.voted_for.is_none());
}

#[test]
fn election_won_with_majority() {
    let mut n = node("n1");
    n.log = vec![entry(1, 1)];
    let (req, outcome) = n.begin_election();
    assert_eq!(outcome, ElectionOutcome::Continue);
    assert_eq!(req.term, 1);
    assert_eq!(req.candidate_id, "n1");
    assert_eq!(req.last_log_index, 1);
    assert_eq!(req.last_log_term, 1);
    assert_eq!(n.state.role, NodeRole::Candidate);
    assert_eq!(n.state.votes_received, 1);
    assert_eq!(n.state.voted_for.as_deref(), Some("n1"));
    assert_eq!(n.heartbeat_action(), HeartbeatAction::Stop);
    let out = n.on_vote_response(&VoteResponse { term: 1, vote_granted: false });
    assert_eq!(out, ElectionOutcome::Continue);
    let out = n.on_vote_response(&VoteResponse { term: 1, vote_granted: true });
    assert_eq!(out, ElectionOutcome::Won);
    assert_eq!(n.state.role, NodeRole::Leader);
    assert_eq!(n.heartbeat_action(), HeartbeatAction::Start);
    assert!(matches!(n.lose_election(), Err(RaftError::ElectionFailure)));
    assert_eq!(n.state.role, NodeRole::Leader);
    assert_eq!(n.state.voted_for.as_deref(), Some("n1"));
}

#[test]
fn single_node_wins_its_election_at_once() {
    let mut n = RaftCore::new("solo".to_string(), ids(&["solo"]));
    let (req, outcome) = n.begin_election();
    assert_eq!(outcome, ElectionOutcome::Won);
    assert_eq!(req.term, 1);
    assert_eq!(n.state.role, NodeRole::Leader);
    assert_eq!(n.state.voted_for.as_deref(), Some("solo"));
    assert_eq!(n.heartbeat_action(), HeartbeatAction::Start);
    assert!(n.peers_except_self().is_empty());
}

#[test]
fn new_election_counts_only_the_own_vote() {
    let mut n = RaftCore::new("a".to_string(), ids(&["a", "b", "c", "d", "e"]));
    n.state.votes_received = 5;
    n.begin_election();
    assert_eq!(n.state.votes_received, 1);
    assert_eq!(n.on_vote_response(&VoteResponse { term: 1, vote_granted: true }), ElectionOutcome::Continue);
    assert_eq!(n.on_vote_response(&VoteResponse { term: 1, vote_granted: true }), ElectionOutcome::Won);
}

#[test]
fn stepping_down_on_requests_resets_the_count() {
    let mut n = node("n1");
    n.state.votes_received = 2;
    n.state.role = NodeRole::Leader;
    n.handle_vote_request(&vote(3, "n2", 0, 0)).unwrap();
    assert_eq!(n.state.votes_received, 0);
    assert_eq!(n.heartbeat_action(), HeartbeatAction::Stop);
    n.state.votes_received = 2;
    n.state.role = NodeRole::Leader;
    n.handle_append_entries(&append(4, 0, 0, vec![], 0));
    assert_eq!(n.state.votes_received, 0);
    assert_eq!(n.heartbeat_action(), HeartbeatAction::Stop);
}

#[test]
fn election_step_down_on_higher_term() {
    let mut n = node("n1");
    let _ = n.begin_election();
    let out = n.on_vote_response(&VoteResponse { term: 7, vote_granted: false });
    assert_eq!(out, ElectionOutcome::StepDown { new_term: 7 });
    assert_eq!(n.state.role, NodeRole::Follower);
    assert_eq!(n.state.current_term, 7);
    assert_eq!(n.state.votes_received, 0);
    assert!(n.state.voted_for.is_none());
}

#[test]
fn election_lost_returns_to_follower() {
    let mut n = RaftCore::new("a".to_string(), ids(&["a", "b", "c", "d", "e"]));
    let _ = n.begin_election();
    assert_eq!(n.on_vote_response(&VoteResponse { term: 1, vote_granted: true }), ElectionOutcome::Continue);
    let r = n.lose_election();
    assert!(matches!(r, Err(RaftError::ElectionFailure)));
    assert_eq!(n.state.role, NodeRole::Follower);
    assert_eq!(n.state.votes_received, 0);
    assert_eq!(n.state.voted_for.as_deref(), Some("a"));
    // its vote in the term stands: another candidate of that term is refused
    let r = n.handle_vote_request(&vote(1, "b", 0, 0)).unwrap();
    assert!(!r.vote_granted);
    assert_eq!(n.state.current_term, 1);
}

#[test]
fn become_leader_and_step_down() {
    let mut n = node("n1");
    assert!(n.become_leader().is_ok());
    assert_eq!(n.state.role, NodeRole::Leader);
    assert!(n.step_down(5).is_ok());
    assert_eq!(n.state.role, NodeRole::Follower);
    assert_eq!(n.state.current_term, 5);
    assert_eq!(n.heartbeat_action(), HeartbeatAction::Stop);
}

#[test]
fn heartbeat_request_names_last_entry() {
    let mut n = node("n1");
    n.state.current_term = 3;
    n.log = vec![entry(2, 1), entry(3, 2)];
    let hb = n.leader_heartbeat_request();
    assert_eq!(hb.term, 3);
    assert_eq!(hb.leader_id, "n1");
    assert_eq!(hb.prev_log_index, 2);
    assert_eq!(hb.prev_log_term, 3);
    assert!(hb.entries.is_empty());
    assert_eq!(hb.leader_commit, 0);
    n.state.commit_index = 1;
    assert_eq!(n.leader_heartbeat_request().leader_commit, 1);
}

#[test]
fn peers_except_self_keeps_order() {
    let n = RaftCore::new("b".to_string(), ids(&["a", "b", "c", "b2"]));
    assert_eq!(n.peers_except_self(), ids(&["a", "c", "b2"]));
}

#[test]
fn replication_request_carries_one_entry() {
    let mut n = node("n1");
    n.state.current_term = 2;
    n.state.commit_index = 1;
    n.log = vec![entry(1, 1), entry(2, 2), entry(2, 3)];
    let m = n.replication_request(2);
    assert_eq!(m.term, 2);
    assert_eq!(m.prev_log_index, 1);
    assert_eq!(m.prev_log_term, 1);
    assert_eq!(m.leader_commit, 1);
    assert_eq!(terms(&m.entries), vec![(2, 2)]);
    assert_eq!(m.entries[0].command, vec![2, 2]);
    let first = n.replication_request(1);
    assert_eq!((first.prev_log_index, first.prev_log_term), (0, 0));
    assert_eq!(terms(&first.entries), vec![(1, 1)]);
    let last = n.replication_request(3);
    assert_eq!((last.prev_log_index, last.prev_log_term), (2, 2));
}

#[test]
fn replicated_entry_fits_a_follower_holding_the_entries_before_it() {
    let mut leader = node("n1");
    leader.state.current_term = 2;
    leader.log = vec![entry(1, 1), entry(2, 2)];
    let mut follower = node("n2");
    follower.log = vec![entry(1, 1)];
    let r = follower.handle_append_entries(&leader.replication_request(2));
    assert!(r.success);
    assert_eq!(terms(&follower.log), vec![(1, 1), (2, 2)]);
}

#[test]
fn stale_request_from_the_start_is_refused() {
    let mut n = node("n2");
    n.state.current_term = 5;
    n.state.commit_index = 1;
    n.log = vec![entry(5, 1)];
    let r = n.handle_append_entries(&append(3, 0, 0, vec![entry(3, 1)], 4));
    assert!(!r.success);
    assert_eq!(r.term, 5);
    assert_eq!(terms(&n.log), vec![(5, 1)]);
    assert_eq!(n.state.commit_index, 1);
}

#[test]
fn replication_commits_at_majority() {
    let mut n = RaftCore::new("a".to_string(), ids(&["a", "b", "c", "d", "e"]));
    n.state.commit_index = 1;
    assert_eq!(n.begin_replication(4), ReplicationProgress::Pending { successes: 1 });
    assert_eq!(n.on_replication_result(4, 1, false), ReplicationProgress::Pending { successes: 1 });
    assert_eq!(n.on_replication_result(4, 1, true), ReplicationProgress::Pending { successes: 2 });
    assert_eq!(n.state.commit_index, 1);
    assert_eq!(n.on_replication_result(4, 2, true), ReplicationProgress::Committed);
    assert_eq!(n.state.commit_index, 4);
    // committing an older entry does not lower the commit index
    assert_eq!(n.on_replication_result(2, 2, true), ReplicationProgress::Committed);
    assert_eq!(n.state.commit_index, 4);
}

#[test]
fn single_node_commits_on_its_own_copy() {
    let mut n = RaftCore::new("solo".to_string(), ids(&["solo"]));
    assert_eq!(n.begin_replication(3), ReplicationProgress::Committed);
    assert_eq!(n.state.commit_index, 3);
}
