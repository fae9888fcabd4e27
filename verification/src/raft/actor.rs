use vstd::prelude::*;

use std::collections::HashMap;

use rand::Rng;

use crate::raft::log::{
    KvCommand, KvResponse, LogEntry, last_term, lemma_push_terms_increase_iff, terms_increase,
};
use crate::raft::state::{RaftState, RaftStateType, RaftStateView, initial_state, opt_string_view};
use crate::store::{KvStore, kv_after_set, kv_lookup};
use crate::text::{decimal, decimal_string};
use crate::rpc::backend::leader_refusal;
use crate::rpc::error::KvError;

verus! {

broadcast use vstd::std_specs::hash::group_hash_axioms;

/// Lower bound (inclusive) of the election timeout, in seconds.
pub const ELECTION_TIMEOUT_MIN: u64 = 300;

/// Upper bound (exclusive) of the election timeout, in seconds.
pub const ELECTION_TIMEOUT_MAX: u64 = 600;

/// Number of granted votes from peers that makes a candidate the leader.
pub const MAJORITY_QUORUM: u8 = 2;

/// Draws a number from `low` (inclusive) to `high` (exclusive) with `rand`'s
/// `Rng::gen_range` on the thread-local generator that `rand::thread_rng`
/// gives.  The contract claims only that the result lies in that range, which
/// is what `gen_range` documents; which number comes is left to chance.
#[verifier::external_body]
fn random_in_range(low: u64, high: u64) -> (value: u64)
    requires
        low < high,
    ensures
        low <= value < high,
{
    rand::thread_rng().gen_range(low..high)
}

/// Draws how long, in seconds, a node waits for a message before it starts
/// an election: a random time from `ELECTION_TIMEOUT_MIN` up to
/// `ELECTION_TIMEOUT_MAX`.
pub fn election_timeout() -> (seconds: u64)
    ensures
        ELECTION_TIMEOUT_MIN <= seconds < ELECTION_TIMEOUT_MAX,
{
    random_in_range(ELECTION_TIMEOUT_MIN, ELECTION_TIMEOUT_MAX)
}

/// The arguments of an AppendEntries RPC.  Without entries it is a heartbeat.
pub struct AppendEntriesRequest {
    pub term: u64,
    pub leader_id: u8,
    pub prev_log_index: u64,
    pub prev_log_term: u64,
    pub entries: Vec<LogEntry>,
    pub leader_commit: u64,
}

pub struct AppendEntriesView {
    pub term: u64,
    pub leader_id: u8,
    pub prev_log_index: u64,
    pub prev_log_term: u64,
    pub entries: Seq<LogEntry>,
    pub leader_commit: u64,
}

impl View for AppendEntriesRequest {
    type V = AppendEntriesView;

    open spec fn view(&self) -> AppendEntriesView {
        AppendEntriesView {
            term: self.term,
            leader_id: self.leader_id,
            prev_log_index: self.prev_log_index,
            prev_log_term: self.prev_log_term,
            entries: self.entries@,
            leader_commit: self.leader_commit,
        }
    }
}

/// The arguments of a RequestVote RPC.
pub struct VoteRequest {
    pub term: u64,
    pub candidate_id: String,
    pub last_log_index: u64,
    pub last_log_term: u64,
}

pub struct VoteRequestView {
    pub term: u64,
    pub candidate_id: Seq<char>,
    pub last_log_index: u64,
    pub last_log_term: u64,
}

impl View for VoteRequest {
    type V = VoteRequestView;

    open spec fn view(&self) -> VoteRequestView {
        VoteRequestView {
            term: self.term,
            candidate_id: self.candidate_id@,
            last_log_index: self.last_log_index,
            last_log_term: self.last_log_term,
        }
    }
}

// ---------------------------------------------------------------------------
// The protocol's transitions over the mathematical state
// ---------------------------------------------------------------------------

/// An AppendEntries request passes both checks: its term is not older than
/// ours (§5.1) and our log ends exactly at `prev_log_index` with term
/// `prev_log_term` (§5.3).
pub open spec fn append_entries_accepted(s: RaftStateView, req: AppendEntriesView) -> bool {
    &&& req.term >= s.current_term
    &&& req.prev_log_index == s.log.len()
    &&& req.prev_log_term == last_term(s.log)
}

/// The commit index after accepting entries that make the log `len` long.
pub open spec fn commit_after_append(commit_index: u64, leader_commit: u64, len: nat) -> u64 {
    if leader_commit > commit_index {
        if leader_commit <= len {
            leader_commit
        } else {
            len as u64
        }
    } else {
        commit_index
    }
}

/// The state after an accepted AppendEntries request: we follow its leader in
/// its term, hold its entries at the end of our log and commit up to the
/// leader's commit index as far as our log reaches.
pub open spec fn after_append_entries(s: RaftStateView, req: AppendEntriesView) -> RaftStateView {
    let log = s.log + req.entries;
    RaftStateView {
        current_leader_id: Some(req.leader_id),
        state_type: RaftStateType::Follower,
        current_term: req.term,
        log: log,
        commit_index: commit_after_append(s.commit_index, req.leader_commit, log.len()),
        ..s
    }
}

/// The state and the answer after an AppendEntries request.
pub open spec fn append_entries_step(s: RaftStateView, req: AppendEntriesView) -> (RaftStateView, bool) {
    if append_entries_accepted(s, req) {
        (after_append_entries(s, req), true)
    } else {
        (s, false)
    }
}

/// The entries of a request can be appended to `log` one by one: each term
/// exceeds the one before.
pub open spec fn entries_extend(log: Seq<LogEntry>, entries: Seq<LogEntry>) -> bool {
    terms_increase(log + entries)
}

/// Whether a node whose decimal id is `own_name` grants a vote.
pub open spec fn vote_granted(s: RaftStateView, own_name: Seq<char>, req: VoteRequestView) -> bool {
    &&& s.current_leader_id is None
    &&& match s.voted_for {
        Some(v) => v == req.candidate_id || v == own_name,
        None => true,
    }
    &&& req.term >= s.current_term
    &&& (s.voted_for is None || (req.last_log_index == s.log.len() && req.last_log_term == last_term(s.log)))
}

/// The state and the answer after a RequestVote request.
pub open spec fn request_vote_step(s: RaftStateView, own_name: Seq<char>, req: VoteRequestView) -> (RaftStateView, bool) {
    if vote_granted(s, own_name, req) {
        (RaftStateView { voted_for: Some(req.candidate_id), current_term: req.term, ..s }, true)
    } else {
        (s, false)
    }
}

/// The state of a node that starts an election: a candidate without leader,
/// one term later, that voted for itself.
pub open spec fn election_start_step(s: RaftStateView, own_name: Seq<char>) -> RaftStateView {
    RaftStateView {
        state_type: RaftStateType::Candidate,
        current_leader_id: None,
        current_term: (s.current_term + 1) as u64,
        voted_for: Some(own_name),
        ..s
    }
}

/// The state after the election timeout passed without a message, and
/// whether an election started: a leader carries on, any other node starts
/// an election.
pub open spec fn timeout_step(s: RaftStateView, own_name: Seq<char>) -> (RaftStateView, bool) {
    if s.state_type == RaftStateType::Leader {
        (s, false)
    } else {
        (election_start_step(s, own_name), true)
    }
}

/// The heartbeat that a node in state `s` with id `id` sends.
pub open spec fn heartbeat_view(s: RaftStateView, id: u8) -> AppendEntriesView {
    AppendEntriesView {
        term: s.current_term,
        leader_id: id,
        prev_log_index: s.log.len() as u64,
        prev_log_term: last_term(s.log),
        entries: Seq::empty(),
        leader_commit: s.commit_index,
    }
}

/// Number of `true` among `votes`.
pub open spec fn granted_count(votes: Seq<bool>) -> nat
    decreases votes.len(),
{
    if votes.len() == 0 {
        0
    } else {
        granted_count(votes.drop_last()) + if votes.last() { 1nat } else { 0nat }
    }
}

/// A prefix of the answers holds no more granted votes than all of them.
pub proof fn lemma_granted_count_prefix(votes: Seq<bool>, k: int)
    requires
        0 <= k <= votes.len(),
    ensures
        granted_count(votes.take(k)) <= granted_count(votes),
    decreases votes.len(),
{
    if k < votes.len() {
        assert(votes.drop_last().take(k) =~= votes.take(k));
        lemma_granted_count_prefix(votes.drop_last(), k);
    } else {
        assert(votes.take(k) =~= votes);
    }
}

/// The state of a candidate once `granted` peers granted their vote.
pub open spec fn election_end_step(s: RaftStateView, own_id: u8, granted: nat) -> RaftStateView {
    if granted >= MAJORITY_QUORUM {
        RaftStateView {
            state_type: RaftStateType::Leader,
            voted_for: None,
            current_leader_id: Some(own_id),
            ..s
        }
    } else {
        s
    }
}

/// The mathematical value of a `KvResponse`.
pub enum KvResponseView {
    Get(Option<Seq<char>>),
    Put(bool),
    Remove(bool),
}

impl View for KvResponse {
    type V = KvResponseView;

    open spec fn view(&self) -> KvResponseView {
        match self {
            KvResponse::Get(v) => KvResponseView::Get(opt_string_view(*v)),
            KvResponse::Put(b) => KvResponseView::Put(*b),
            KvResponse::Remove(b) => KvResponseView::Remove(*b),
        }
    }
}

/// The store and the answer after applying `command` to the store `m`.
pub open spec fn command_step(m: Map<Seq<char>, Seq<char>>, command: KvCommand) -> (Map<Seq<char>, Seq<char>>, KvResponseView) {
    match command {
        KvCommand::Get { key } => (m, KvResponseView::Get(kv_lookup(m, key@))),
        KvCommand::Put { key, value } => (kv_after_set(m, key@, value@), KvResponseView::Put(true)),
        KvCommand::Remove { key } => (m.remove(key@), KvResponseView::Remove(m.contains_key(key@))),
    }
}

/// A log whose terms stop increasing somewhere in `log + entries.take(k)`
/// does not become increasing with more entries.
proof fn lemma_prefix_breaks(log: Seq<LogEntry>, entries: Seq<LogEntry>, k: int)
    requires
        0 <= k <= entries.len(),
        !terms_increase(log + entries.take(k)),
    ensures
        !terms_increase(log + entries),
{
    let short = log + entries.take(k);
    let all = log + entries;
    let (i, j) = choose|i: int, j: int| 0 <= i < j < short.len() && !(#[trigger] short[i].term < #[trigger] short[j].term);
    assert(short[i] == all[i] && short[j] == all[j]);
}

// ---------------------------------------------------------------------------
// The node
// ---------------------------------------------------------------------------

/// The state and decisions of one Raft node: its id, the addresses of its
/// peers and its Raft state.  Whoever runs the node hands it each protocol
/// event and carries out the returned action.
pub struct RaftActor {
    pub peer_id: u8,
    pub peers: HashMap<u8, String>,
    pub raft_state: RaftState,
    /// The key-value state machine that applied commands drive.
    pub state: KvStore,
}

impl RaftActor {
    pub fn new(peer_id: u8, peers: HashMap<u8, String>) -> (actor: RaftActor)
        ensures
            actor.peer_id == peer_id,
            actor.peers@ == peers@,
            actor.raft_state@ == initial_state(),
            actor.raft_state@.well_formed(),
            actor.state@ == Map::<Seq<char>, Seq<char>>::empty(),
    {
        RaftActor { peer_id, peers, raft_state: RaftState::new(), state: KvStore::new() }
    }

    /// Returns true if the actor is the current leader.
    pub fn is_leader(&self) -> (leader: bool)
        ensures
            leader == (self.raft_state.state_type == RaftStateType::Leader),
    {
        match self.raft_state.state_type {
            RaftStateType::Leader => true,
            _ => false,
        }
    }

    /// Whether the node can take `req` without breaking its log: a request
    /// that it would accept must bring entries whose terms keep increasing
    /// after its own last entry.
    pub fn entries_fit(&self, req: &AppendEntriesRequest) -> (fits: bool)
        ensures
            fits == (append_entries_accepted(self.raft_state@, req@)
                ==> entries_extend(self.raft_state@.log, req@.entries)),
    {
        if req.term < self.raft_state.current_term
            || self.raft_state.log.last_log_index() != req.prev_log_index
            || self.raft_state.log.last_entry_term() != req.prev_log_term
        {
            return true;
        }
        let ghost log = self.raft_state@.log;
        proof {
            assert(log + req@.entries.take(0) =~= log);
        }
        let mut last: Option<u64> = if req.prev_log_index == 0 { None } else { Some(req.prev_log_term) };
        let mut i: usize = 0;
        while i < req.entries.len()
            invariant
                i <= req@.entries.len(),
                log == self.raft_state@.log,
                append_entries_accepted(self.raft_state@, req@),
                terms_increase(log + req@.entries.take(i as int)),
                match last {
                    None => (log + req@.entries.take(i as int)).len() == 0,
                    Some(t) => (log + req@.entries.take(i as int)).len() > 0
                        && t == (log + req@.entries.take(i as int)).last().term,
                },
            decreases req@.entries.len() - i,
        {
            let term = req.entries[i].term;
            let ghost before = log + req@.entries.take(i as int);
            proof {
                assert(log + req@.entries.take(i + 1) =~= before.push(req@.entries[i as int]));
                lemma_push_terms_increase_iff(before, req@.entries[i as int]);
            }
            match last {
                Some(t) => {
                    if term <= t {
                        proof {
                            assert(!terms_increase(before.push(req@.entries[i as int])));
                            lemma_prefix_breaks(log, req@.entries, i + 1);
                        }
                        return false;
                    }
                },
                None => {},
            }
            last = Some(term);
            i = i + 1;
        }
        proof {
            assert(req@.entries.take(i as int) =~= req@.entries);
        }
        true
    }

    /// Answers an AppendEntries request.
    pub fn handle_append_entries(&mut self, req: AppendEntriesRequest) -> (accepted: bool)
        requires
            append_entries_accepted(old(self).raft_state@, req@) ==> entries_extend(old(self).raft_state@.log, req@.entries),
        ensures
            (final(self).raft_state@, accepted) == append_entries_step(old(self).raft_state@, req@),
            final(self).peer_id == old(self).peer_id,
            final(self).peers@ == old(self).peers@,
            final(self).state@ == old(self).state@,
    {
        // if term < currentTerm, reject (§5.1)
        if req.term < self.raft_state.current_term {
            return false;
        }
        // if log doesn't contain an entry at prevLogIndex whose term matches prevLogTerm, reject (§5.3)
        if self.raft_state.log.last_log_index() != req.prev_log_index
            || self.raft_state.log.last_entry_term() != req.prev_log_term
        {
            return false;
        }
        let ghost s0 = self.raft_state@;
        self.raft_state.current_term = req.term;
        self.raft_state.state_type = RaftStateType::Follower;
        self.raft_state.current_leader_id = Some(req.leader_id);
        // append any new entries not already in the log
        let ghost s1 = self.raft_state@;
        let ghost pid = self.peer_id;
        let ghost peers0 = self.peers@;
        let ghost state0 = self.state@;
        let mut rest = req.entries;
        while rest.len() > 0
            invariant
                self.raft_state@ == (RaftStateView { log: self.raft_state@.log, ..s1 }),
                self.peer_id == pid,
                self.peers@ == peers0,
                self.state@ == state0,
                self.raft_state.log@ + rest@ == s0.log + req@.entries,
                terms_increase(s0.log + req@.entries),
            decreases rest.len(),
        {
            let ghost before = self.raft_state.log@;
            let entry = rest.remove(0);
            proof {
                let all = s0.log + req@.entries;
                if before.len() > 0 {
                    assert(all[before.len() - 1] == before.last());
                    assert(all[before.len() as int] == entry);
                }
            }
            self.raft_state.log.add_entry(entry);
            proof {
                assert(self.raft_state.log@ + rest@ =~= before + (seq![entry] + rest@));
            }
        }
        proof {
            assert(rest@ =~= Seq::<LogEntry>::empty());
            assert(self.raft_state.log@ =~= s0.log + req@.entries);
        }
        if req.leader_commit > self.raft_state.commit_index {
            let last = self.raft_state.log.last_log_index();
            self.raft_state.commit_index = if req.leader_commit <= last { req.leader_commit } else { last };
        }
        true
    }

    /// Answers a RequestVote request.
    pub fn handle_request_vote(&mut self, req: VoteRequest) -> (granted: bool)
        ensures
            (final(self).raft_state@, granted) == request_vote_step(old(self).raft_state@, decimal(old(self).peer_id as nat), req@),
            final(self).peer_id == old(self).peer_id,
            final(self).peers@ == old(self).peers@,
            final(self).state@ == old(self).state@,
    {
        // if there is already a leader, reject the request
        if self.raft_state.current_leader_id.is_some() {
            return false;
        }
        // check if we already voted for someone else in this term
        match &self.raft_state.voted_for {
            Some(voted_for) => {
                let own = decimal_string(self.peer_id);
                if !(*voted_for == req.candidate_id) && !(*voted_for == own) {
                    return false;
                }
            },
            None => {},
        }
        // reply false if term < currentTerm (§5.1)
        if req.term < self.raft_state.current_term {
            return false;
        }
        let log_is_consistent = self.raft_state.log.last_log_index() == req.last_log_index
            && self.raft_state.log.last_entry_term() == req.last_log_term;
        if self.raft_state.voted_for.is_none() || log_is_consistent {
            self.raft_state.voted_for = Some(req.candidate_id);
            self.raft_state.current_term = req.term;
            return true;
        }
        // in any other case, we reject the request
        false
    }

    /// The heartbeat to send to every peer now: a leader sends one on each
    /// turn of its loop and right after winning an election; no other node
    /// sends any.
    pub fn pending_heartbeat(&self) -> (heartbeat: Option<AppendEntriesRequest>)
        ensures
            heartbeat is Some <==> self.raft_state.state_type == RaftStateType::Leader,
            heartbeat is Some ==> heartbeat->0@ == heartbeat_view(self.raft_state@, self.peer_id),
    {
        if self.is_leader() {
            Some(self.heartbeat())
        } else {
            None
        }
    }

    /// What a node does when its election timeout passes without a message:
    /// a leader carries on, any other node starts an election and returns the
    /// request to send to every peer.
    pub fn on_timeout(&mut self) -> (ballot: Option<VoteRequest>)
        requires
            old(self).raft_state.state_type != RaftStateType::Leader ==> old(self).raft_state.current_term < u64::MAX,
        ensures
            (final(self).raft_state@, ballot is Some) == timeout_step(old(self).raft_state@, decimal(old(self).peer_id as nat)),
            ballot is Some ==> ballot->0@ == (VoteRequestView {
                    term: final(self).raft_state.current_term,
                    candidate_id: decimal(old(self).peer_id as nat),
                    last_log_index: old(self).raft_state@.log.len() as u64,
                    last_log_term: last_term(old(self).raft_state@.log),
                }),
            final(self).peer_id == old(self).peer_id,
            final(self).peers@ == old(self).peers@,
            final(self).state@ == old(self).state@,
    {
        if self.is_leader() {
            None
        } else {
            Some(self.start_election())
        }
    }

    /// Ends the hand-over of `command` to the leader: the command is applied
    /// to the local state machine exactly when the leader accepted it, and its
    /// answer returned; otherwise nothing changes and the hand-over fails.
    pub fn apply_if_accepted(&mut self, accepted: bool, command: KvCommand) -> (result: Result<KvResponse, KvError>)
        ensures
            accepted ==> (result matches Ok(response)
                && (final(self).state@, response@) == command_step(old(self).state@, command)),
            !accepted ==> (result matches Err(e) && e.message@ == "Failed to send command to leader"@
                && final(self).state@ == old(self).state@),
            final(self).raft_state@ == old(self).raft_state@,
            final(self).peer_id == old(self).peer_id,
            final(self).peers@ == old(self).peers@,
    {
        if accepted {
            Ok(self.apply_command(command))
        } else {
            Err(leader_refusal())
        }
    }

    /// Starts a new election: becomes a candidate one term later, votes for
    /// itself and returns the request to send to every peer.
    pub fn start_election(&mut self) -> (ballot: VoteRequest)
        requires
            old(self).raft_state.current_term < u64::MAX,
        ensures
            final(self).raft_state@ == election_start_step(old(self).raft_state@, decimal(old(self).peer_id as nat)),
            ballot@ == (VoteRequestView {
                term: final(self).raft_state.current_term,
                candidate_id: decimal(old(self).peer_id as nat),
                last_log_index: old(self).raft_state@.log.len() as u64,
                last_log_term: last_term(old(self).raft_state@.log),
            }),
            final(self).peer_id == old(self).peer_id,
            final(self).peers@ == old(self).peers@,
            final(self).state@ == old(self).state@,
    {
        self.raft_state.state_type = RaftStateType::Candidate;
        self.raft_state.current_leader_id = None;
        self.raft_state.current_term = self.raft_state.current_term + 1;
        self.raft_state.voted_for = Some(decimal_string(self.peer_id));
        VoteRequest {
            term: self.raft_state.current_term,
            candidate_id: decimal_string(self.peer_id),
            last_log_index: self.raft_state.log.last_log_index(),
            last_log_term: self.raft_state.log.last_entry_term(),
        }
    }

    /// Ends an election with the answers of the peers: with at least
    /// `MAJORITY_QUORUM` granted votes the node becomes the leader.  Returns
    /// whether it did.
    pub fn conclude_election(&mut self, votes: &Vec<bool>) -> (elected: bool)
        requires
            granted_count(votes@) < 256,
        ensures
            elected == (granted_count(votes@) >= MAJORITY_QUORUM),
            final(self).raft_state@ == election_end_step(old(self).raft_state@, old(self).peer_id, granted_count(votes@)),
            final(self).peer_id == old(self).peer_id,
            final(self).peers@ == old(self).peers@,
            final(self).state@ == old(self).state@,
    {
        let mut positive_votes: u8 = 0;
        let mut i: usize = 0;
        while i < votes.len()
            invariant
                i <= votes@.len(),
                granted_count(votes@) < 256,
                positive_votes == granted_count(votes@.take(i as int)),
            decreases votes@.len() - i,
        {
            proof {
                assert(votes@.take(i + 1).drop_last() =~= votes@.take(i as int));
                lemma_granted_count_prefix(votes@, i + 1);
            }
            if votes[i] {
                positive_votes = positive_votes + 1;
            }
            i = i + 1;
        }
        proof {
            assert(votes@.take(votes@.len() as int) =~= votes@);
        }
        if positive_votes >= MAJORITY_QUORUM {
            self.raft_state.state_type = RaftStateType::Leader;
            self.raft_state.voted_for = None;
            self.raft_state.current_leader_id = Some(self.peer_id);
            true
        } else {
            false
        }
    }

    /// The state type of the node.
    pub fn raft_state_type(&self) -> (t: RaftStateType)
        ensures
            t == self.raft_state.state_type,
    {
        self.raft_state.state_type
    }

    /// The current leader's id and address, when the node knows a leader
    /// among its peers.
    pub fn current_leader(&self) -> (leader: Option<(u8, String)>)
        ensures
            match leader {
                Some((id, host)) => self.raft_state.current_leader_id == Some(id)
                    && self.peers@.contains_key(id) && host@ == self.peers@[id]@,
                None => self.raft_state.current_leader_id is None
                    || !self.peers@.contains_key(self.raft_state.current_leader_id->0),
            },
    {
        match self.raft_state.current_leader_id {
            Some(id) => match self.peers.get(&id) {
                Some(host) => Some((id, host.clone())),
                None => None,
            },
            None => None,
        }
    }

    /// The index and the term of the last entry of the log.
    pub fn last_log_index_and_term(&self) -> (last: (u64, u64))
        ensures
            last.0 == self.raft_state@.log.len(),
            last.1 == last_term(self.raft_state@.log),
    {
        (self.raft_state.log.last_log_index(), self.raft_state.log.last_entry_term())
    }

    /// Applies a command to the key-value state machine and returns its answer.
    pub fn apply_command(&mut self, command: KvCommand) -> (response: KvResponse)
        ensures
            (final(self).state@, response@) == command_step(old(self).state@, command),
            final(self).raft_state@ == old(self).raft_state@,
            final(self).peer_id == old(self).peer_id,
            final(self).peers@ == old(self).peers@,
    {
        match command {
            KvCommand::Get { key } => KvResponse::Get(self.state.get(&key)),
            KvCommand::Put { key, value } => {
                self.state.set(key, value);
                KvResponse::Put(true)
            },
            KvCommand::Remove { key } => {
                let removed = self.state.remove(&key);
                KvResponse::Remove(removed.is_some())
            },
        }
    }

    /// The heartbeat that a leader sends to every peer: an AppendEntries
    /// request without entries.
    pub fn heartbeat(&self) -> (req: AppendEntriesRequest)
        ensures
            req@ == heartbeat_view(self.raft_state@, self.peer_id),
    {
        AppendEntriesRequest {
            term: self.raft_state.current_term,
            leader_id: self.peer_id,
            prev_log_index: self.raft_state.log.last_log_index(),
            prev_log_term: self.raft_state.log.last_entry_term(),
            entries: Vec::new(),
            leader_commit: self.raft_state.commit_index,
        }
    }
}

} // verus!
