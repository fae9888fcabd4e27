use vstd::prelude::*;

use crate::raft::log::{Log, LogEntry, terms_increase};

verus! {

/// Raft state machine states
/// =========================
/// Follower:
/// - responds to RPCs from candidates and leaders
/// - if election timeout elapses without receiving AppendEntries RPC from
///   current leader or granting vote to candidate: convert to candidate and
///   starts a new election
///
/// Candidate:
/// - sends RequestVote RPCs to all other servers
/// - receives votes from other servers
/// - if votes received from majority of servers: become leader
/// - if AppendEntries RPC received from new leader: convert to follower
/// - if election timeout elapses: start new election
///
/// Leader:
/// - Upon election: send initial empty AppendEntries RPCs (heartbeat) to each
///  server; repeat during idle periods to prevent election timeouts
/// - If command received from client: append entry to local log, respond after
///  entry applied to state machine
#[derive(Debug, Clone, Copy, PartialEq, Eq, Structural)]
pub enum RaftStateType {
    Follower,
    Candidate,
    Leader,
}

impl RaftStateType {
    /// The lower-case name of the state, as the `raft_state` RPC reports it.
    pub open spec fn label_spec(self) -> Seq<char> {
        match self {
            RaftStateType::Follower => "follower"@,
            RaftStateType::Candidate => "candidate"@,
            RaftStateType::Leader => "leader"@,
        }
    }

    /// Returns the lower-case name of the state: "follower", "candidate" or
    /// "leader".
    pub fn label(&self) -> (name: String)
        ensures
            name@ == self.label_spec(),
    {
        match self {
            RaftStateType::Follower => String::from_str("follower"),
            RaftStateType::Candidate => String::from_str("candidate"),
            RaftStateType::Leader => String::from_str("leader"),
        }
    }
}

/// The mathematical value of a `RaftState`.
pub struct RaftStateView {
    pub current_leader_id: Option<u8>,
    pub state_type: RaftStateType,
    pub current_term: u64,
    pub voted_for: Option<Seq<char>>,
    pub log: Seq<LogEntry>,
    pub commit_index: u64,
    pub last_log_entry_index_applied: u64,
    pub next_index: Seq<u64>,
    pub match_index: Seq<u64>,
}

impl RaftStateView {
    /// The invariant that every transition of a node keeps: the log's terms
    /// strictly increase and no index past the end of the log is committed.
    pub open spec fn well_formed(self) -> bool {
        &&& terms_increase(self.log)
        &&& self.commit_index <= self.log.len()
    }
}

/// The persistent and volatile state of a Raft node.
pub struct RaftState {
    /// The current leader id, if any
    pub current_leader_id: Option<u8>,
    /// The current state of the Raft actor
    pub state_type: RaftStateType,
    pub current_term: u64,
    /// The candidate the server voted for in its current term, or None if it doesn't voted yet
    pub voted_for: Option<String>,
    pub log: Log,
    /// The index of the highest log entry known to be committed
    pub commit_index: u64,
    /// The index of the highest log entry applied to the state machine
    pub last_log_entry_index_applied: u64,
    /// Only for leaders. For each server, index of the next log entry to send to that server
    pub next_index: Vec<u64>,
    /// Only for leaders. For each server, index of highest log entry known to be replicated on server
    pub match_index: Vec<u64>,
}

/// The view of an optional string.
pub open spec fn opt_string_view(s: Option<String>) -> Option<Seq<char>> {
    match s {
        Some(v) => Some(v@),
        None => None,
    }
}

impl View for RaftState {
    type V = RaftStateView;

    open spec fn view(&self) -> RaftStateView {
        RaftStateView {
            current_leader_id: self.current_leader_id,
            state_type: self.state_type,
            current_term: self.current_term,
            voted_for: opt_string_view(self.voted_for),
            log: self.log@,
            commit_index: self.commit_index,
            last_log_entry_index_applied: self.last_log_entry_index_applied,
            next_index: self.next_index@,
            match_index: self.match_index@,
        }
    }
}

/// The state of a node that has just started.
pub open spec fn initial_state() -> RaftStateView {
    RaftStateView {
        current_leader_id: None,
        state_type: RaftStateType::Follower,
        current_term: 0,
        voted_for: None,
        log: Seq::empty(),
        commit_index: 0,
        last_log_entry_index_applied: 0,
        next_index: Seq::empty(),
        match_index: Seq::empty(),
    }
}

impl RaftState {
    pub fn new() -> (state: RaftState)
        ensures
            state@ == initial_state(),
            state@.well_formed(),
    {
        RaftState {
            current_leader_id: None,
            state_type: RaftStateType::Follower,
            current_term: 0,
            voted_for: None,
            log: Log::new(),
            commit_index: 0,
            last_log_entry_index_applied: 0,
            next_index: Vec::new(),
            match_index: Vec::new(),
        }
    }
}

} // verus!
