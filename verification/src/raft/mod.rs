//! The Raft protocol: the replicated log, the state of a node, the decisions
//! a node takes on each protocol event and the laws those decisions keep.
pub mod actor;
pub mod laws;
pub mod log;
pub mod state;

use vstd::prelude::*;

verus! {

/// The role of a node in its cluster.
#[derive(Debug, Clone, Copy, PartialEq, Eq, Structural)]
pub enum RaftState {
    Follower,
    Candidate,
    Leader,
}

/// The state of a node with its log held as plain commands.
pub struct Raft {
    pub state: RaftState,
    pub current_term: u64,
    pub voted_for: Option<String>,
    pub log: Vec<String>,
    pub commit_index: u64,
    pub last_applied: u64,
    pub next_index: Vec<u64>,
    pub match_index: Vec<u64>,
}

impl Raft {
    pub fn new() -> (raft: Raft)
        ensures
            raft.state == RaftState::Follower,
            raft.current_term == 0,
            raft.voted_for is None,
            raft.log@.len() == 0,
            raft.commit_index == 0,
            raft.last_applied == 0,
            raft.next_index@.len() == 0,
            raft.match_index@.len() == 0,
    {
        Raft {
            state: RaftState::Follower,
            current_term: 0,
            voted_for: None,
            log: Vec::new(),
            commit_index: 0,
            last_applied: 0,
            next_index: Vec::new(),
            match_index: Vec::new(),
        }
    }
}

} // verus!
