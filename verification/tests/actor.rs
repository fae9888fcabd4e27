use std::collections::HashMap;

use raft_kv::raft::actor::{
    election_timeout, AppendEntriesRequest, RaftActor, VoteRequest, ELECTION_TIMEOUT_MAX,
    ELECTION_TIMEOUT_MIN,
};
use raft_kv::raft::log::{KvCommand, KvResponse, LogEntry};
use raft_kv::raft::state::{RaftState, RaftStateType};
use raft_kv::raft::{Raft, RaftState as Role};

fn peers() -> HashMap<u8, String> {
    let mut peers = HashMap::new();
    peers.insert(2, "127.0.0.1:8081".to_string());
    peers.insert(3, "127.0.0.1:8082".to_string());
    peers
}

fn entry(term: u64, key: &str) -> LogEntry {
    LogEntry::new(term, KvCommand::Get { key: key.to_string() })
}

fn append(term: u64, leader: u8, prev_index: u64, prev_term: u64, entries: Vec<LogEntry>, commit: u64) -> AppendEntriesRequest {
    AppendEntriesRequest {
        term,
        leader_id: leader,
        prev_log_index: prev_index,
        prev_log_term: prev_term,
        entries,
        leader_commit: commit,
    }
}

fn vote(term: u64, candidate: &str, last_index: u64, last_term: u64) -> VoteRequest {
    VoteRequest { term, candidate_id: candidate.to_string(), last_log_index: last_index, last_log_term: last_term }
}

#[test]
fn new_actor_is_a_follower_in_term_zero() {
    let actor = RaftActor::new(1, peers());
    assert_eq!(actor.raft_state_type(), RaftStateType::Follower);
    assert_eq!(actor.raft_state.current_term, 0);
    assert!(actor.raft_state.voted_for.is_none());
    assert!(actor.raft_state.current_leader_id.is_none());
    assert_eq!(actor.last_log_index_and_term(), (0, 0));
    assert!(!actor.is_leader());
    assert!(actor.current_leader().is_none());
}

#[test]
fn raft_state_new_is_empty() {
    let state = RaftState::new();
    assert_eq!(state.state_type, RaftStateType::Follower);
    assert_eq!(state.commit_index, 0);
    assert_eq!(state.last_log_entry_index_applied, 0);
    assert!(state.next_index.is_empty() && state.match_index.is_empty());
    let raft = Raft::new();
    assert_eq!(raft.state, Role::Follower);
    assert!(raft.log.is_empty());
}

#[test]
fn heartbeat_from_leader_is_accepted() {
    let mut actor = RaftActor::new(1, peers());
    assert!(actor.handle_append_entries(append(3, 2, 0, 0, vec![], 0)));
    assert_eq!(actor.raft_state.current_term, 3);
    assert_eq!(actor.raft_state.current_leader_id, Some(2));
    assert_eq!(actor.current_leader(), Some((2, "127.0.0.1:8081".to_string())));
}

#[test]
fn older_term_is_rejected_and_changes_nothing() {
    let mut actor = RaftActor::new(1, peers());
    assert!(actor.handle_append_entries(append(5, 2, 0, 0, vec![], 0)));
    assert!(!actor.handle_append_entries(append(4, 3, 0, 0, vec![entry(4, "x")], 0)));
    assert_eq!(actor.raft_state.current_term, 5);
    assert_eq!(actor.raft_state.current_leader_id, Some(2));
    assert_eq!(actor.last_log_index_and_term(), (0, 0));
}

#[test]
fn mismatched_previous_entry_is_rejected() {
    let mut actor = RaftActor::new(1, peers());
    assert!(!actor.handle_append_entries(append(1, 2, 1, 0, vec![], 0)));
    assert!(!actor.handle_append_entries(append(1, 2, 0, 1, vec![], 0)));
    assert_eq!(actor.raft_state.current_term, 0);
    assert!(actor.raft_state.current_leader_id.is_none());
}

#[test]
fn entries_are_appended_and_commit_follows_the_leader() {
    let mut actor = RaftActor::new(1, peers());
    assert!(actor.handle_append_entries(append(2, 2, 0, 0, vec![entry(1, "a"), entry(2, "b")], 9)));
    assert_eq!(actor.last_log_index_and_term(), (2, 2));
    // the leader commits further than the log reaches: commit stops at the last entry
    assert_eq!(actor.raft_state.commit_index, 2);
    assert!(actor.handle_append_entries(append(3, 2, 2, 2, vec![entry(3, "c")], 1)));
    // a smaller leader commit never lowers the commit index
    assert_eq!(actor.raft_state.commit_index, 2);
    assert_eq!(actor.last_log_index_and_term(), (3, 3));
}

#[test]
fn entries_fit_checks_terms() {
    let actor = RaftActor::new(1, peers());
    assert!(actor.entries_fit(&append(1, 2, 0, 0, vec![entry(1, "a"), entry(2, "b")], 0)));
    assert!(!actor.entries_fit(&append(1, 2, 0, 0, vec![entry(2, "a"), entry(2, "b")], 0)));
    // a request that is rejected anyway fits
    assert!(actor.entries_fit(&append(1, 2, 7, 0, vec![entry(2, "a"), entry(1, "b")], 0)));
}

#[test]
fn accepting_entries_turns_a_candidate_into_a_follower() {
    let mut actor = RaftActor::new(1, peers());
    actor.start_election();
    assert_eq!(actor.raft_state_type(), RaftStateType::Candidate);
    assert!(actor.handle_append_entries(append(1, 3, 0, 0, vec![], 0)));
    assert_eq!(actor.raft_state_type(), RaftStateType::Follower);
    assert_eq!(actor.raft_state.current_leader_id, Some(3));
}

#[test]
fn first_vote_is_granted() {
    let mut actor = RaftActor::new(1, peers());
    assert!(actor.handle_request_vote(vote(4, "2", 9, 9)));
    assert_eq!(actor.raft_state.voted_for.as_deref(), Some("2"));
    assert_eq!(actor.raft_state.current_term, 4);
}

#[test]
fn vote_for_another_candidate_is_refused() {
    let mut actor = RaftActor::new(1, peers());
    assert!(actor.handle_request_vote(vote(4, "2", 0, 0)));
    assert!(!actor.handle_request_vote(vote(5, "3", 0, 0)));
    assert_eq!(actor.raft_state.voted_for.as_deref(), Some("2"));
    assert_eq!(actor.raft_state.current_term, 4);
}

#[test]
fn repeated_vote_needs_a_matching_log() {
    let mut actor = RaftActor::new(1, peers());
    assert!(actor.handle_request_vote(vote(4, "2", 0, 0)));
    assert!(!actor.handle_request_vote(vote(4, "2", 1, 0)));
    assert!(actor.handle_request_vote(vote(5, "2", 0, 0)));
    assert_eq!(actor.raft_state.current_term, 5);
}

#[test]
fn no_vote_while_a_leader_is_known_or_for_an_older_term() {
    let mut actor = RaftActor::new(1, peers());
    assert!(actor.handle_request_vote(vote(4, "2", 0, 0)));
    assert!(!actor.handle_request_vote(vote(3, "2", 0, 0)));
    let mut follower = RaftActor::new(1, peers());
    assert!(follower.handle_append_entries(append(1, 2, 0, 0, vec![], 0)));
    assert!(!follower.handle_request_vote(vote(2, "3", 0, 0)));
    assert!(follower.raft_state.voted_for.is_none());
}

#[test]
fn election_makes_a_candidate_that_voted_for_itself() {
    let mut actor = RaftActor::new(12, peers());
    let ballot = actor.start_election();
    assert_eq!(actor.raft_state_type(), RaftStateType::Candidate);
    assert_eq!(actor.raft_state.current_term, 1);
    assert_eq!(actor.raft_state.voted_for.as_deref(), Some("12"));
    assert!(actor.raft_state.current_leader_id.is_none());
    assert_eq!(ballot.term, 1);
    assert_eq!(ballot.candidate_id, "12");
    assert_eq!((ballot.last_log_index, ballot.last_log_term), (0, 0));
    // a candidate still accepts a request from its own id as a vote for itself
    assert!(actor.handle_request_vote(vote(1, "9", 0, 0)));
}

#[test]
fn quorum_of_votes_elects_the_leader() {
    let mut actor = RaftActor::new(1, peers());
    actor.start_election();
    assert!(actor.conclude_election(&vec![true, false, true]));
    assert!(actor.is_leader());
    assert_eq!(actor.raft_state.current_leader_id, Some(1));
    assert!(actor.raft_state.voted_for.is_none());
    let hb = actor.heartbeat();
    assert_eq!((hb.term, hb.leader_id, hb.prev_log_index, hb.prev_log_term, hb.leader_commit), (1, 1, 0, 0, 0));
    assert!(hb.entries.is_empty());
}

#[test]
fn too_few_votes_leave_a_candidate() {
    let mut actor = RaftActor::new(1, peers());
    actor.start_election();
    assert!(!actor.conclude_election(&vec![true, false]));
    assert_eq!(actor.raft_state_type(), RaftStateType::Candidate);
    assert_eq!(actor.raft_state.voted_for.as_deref(), Some("1"));
}

#[test]
fn a_follower_accepts_its_leaders_heartbeat() {
    let mut leader = RaftActor::new(1, peers());
    leader.start_election();
    assert!(leader.conclude_election(&vec![true, true]));
    let mut follower = RaftActor::new(2, peers());
    assert!(follower.handle_append_entries(leader.heartbeat()));
    assert_eq!(follower.raft_state.current_term, leader.raft_state.current_term);
    assert_eq!(follower.raft_state.current_leader_id, Some(1));
}

#[test]
fn commands_drive_the_store() {
    let mut actor = RaftActor::new(1, peers());
    let put = |k: &str, v: &str| KvCommand::Put { key: k.to_string(), value: v.to_string() };
    assert!(matches!(actor.apply_command(KvCommand::Get { key: "a".into() }), KvResponse::Get(None)));
    assert!(matches!(actor.apply_command(put("a", "1")), KvResponse::Put(true)));
    assert!(matches!(actor.apply_command(put("a", "2")), KvResponse::Put(true)));
    match actor.apply_command(KvCommand::Get { key: "a".into() }) {
        KvResponse::Get(Some(v)) => assert_eq!(v, "1"),
        _ => panic!("value expected"),
    }
    assert!(matches!(actor.apply_command(KvCommand::Remove { key: "a".into() }), KvResponse::Remove(true)));
    assert!(matches!(actor.apply_command(KvCommand::Remove { key: "a".into() }), KvResponse::Remove(false)));
}

#[test]
fn timeout_starts_an_election_unless_leader() {
    let mut actor = RaftActor::new(5, peers());
    assert!(actor.pending_heartbeat().is_none());
    let ballot = actor.on_timeout().expect("a follower starts an election");
    assert_eq!(actor.raft_state_type(), RaftStateType::Candidate);
    assert_eq!((ballot.term, ballot.candidate_id.as_str()), (1, "5"));
    let again = actor.on_timeout().expect("a candidate starts a new election");
    assert_eq!(again.term, 2);
    assert!(actor.conclude_election(&vec![true, true]));
    let hb = actor.pending_heartbeat().expect("a leader owes a heartbeat");
    assert_eq!((hb.term, hb.leader_id), (2, 5));
    assert!(hb.entries.is_empty());
    assert!(actor.on_timeout().is_none());
    assert!(actor.is_leader());
    assert_eq!(actor.raft_state.current_term, 2);
}

#[test]
fn forwarded_command_is_applied_only_when_accepted() {
    let mut actor = RaftActor::new(1, peers());
    let put = |k: &str, v: &str| KvCommand::Put { key: k.to_string(), value: v.to_string() };
    match actor.apply_if_accepted(false, put("a", "1")) {
        Err(e) => assert_eq!(e.message, "Failed to send command to leader"),
        Ok(_) => panic!("refused command must fail"),
    }
    assert!(matches!(actor.apply_command(KvCommand::Get { key: "a".into() }), KvResponse::Get(None)));
    assert!(matches!(actor.apply_if_accepted(true, put("a", "1")), Ok(KvResponse::Put(true))));
    match actor.apply_command(KvCommand::Get { key: "a".into() }) {
        KvResponse::Get(Some(v)) => assert_eq!(v, "1"),
        _ => panic!("value expected"),
    }
}

#[test]
fn state_labels_are_lower_case() {
    assert_eq!(RaftStateType::Follower.label(), "follower");
    assert_eq!(RaftStateType::Candidate.label(), "candidate");
    assert_eq!(RaftStateType::Leader.label(), "leader");
}

#[test]
fn election_timeout_is_drawn_in_its_range() {
    let draws: Vec<u64> = (0..64).map(|_| election_timeout()).collect();
    assert!(draws.iter().all(|t| (ELECTION_TIMEOUT_MIN..ELECTION_TIMEOUT_MAX).contains(t)));
    assert!(draws.iter().any(|t| *t != draws[0]));
}
