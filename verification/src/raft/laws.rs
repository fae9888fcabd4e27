use vstd::prelude::*;

use crate::raft::actor::{
    AppendEntriesView, KvResponseView, VoteRequestView, MAJORITY_QUORUM, append_entries_accepted,
    append_entries_step, command_step, election_end_step, election_start_step, entries_extend,
    request_vote_step, vote_granted, heartbeat_view, timeout_step, granted_count,
};
use crate::raft::log::{KvCommand, LogEntry, last_term};
use crate::raft::state::{RaftStateType, RaftStateView};

verus! {

/// `prefix` is an initial part of `log`.
pub open spec fn is_log_prefix(prefix: Seq<LogEntry>, log: Seq<LogEntry>) -> bool {
    prefix.len() <= log.len() && log.subrange(0, prefix.len() as int) == prefix
}

/// An AppendEntries request keeps the node's invariant; the term and the
/// commit index never go down, the log only grows at its end and the vote is
/// kept.  A rejected request changes nothing; an accepted one makes the node a
/// follower of the sender in the sender's term.
pub proof fn lemma_append_entries_step(s: RaftStateView, req: AppendEntriesView)
    requires
        s.well_formed(),
        append_entries_accepted(s, req) ==> entries_extend(s.log, req.entries),
    ensures
        ({
            let (t, accepted) = append_entries_step(s, req);
            &&& t.well_formed()
            &&& t.current_term >= s.current_term
            &&& t.commit_index >= s.commit_index
            &&& is_log_prefix(s.log, t.log)
            &&& t.voted_for == s.voted_for
            &&& !accepted ==> t == s
            &&& accepted ==> t.state_type == RaftStateType::Follower && t.current_leader_id == Some(req.leader_id)
                && t.current_term == req.term && t.log == s.log + req.entries
        }),
{
    let (t, accepted) = append_entries_step(s, req);
    if accepted {
        assert(t.log.subrange(0, s.log.len() as int) =~= s.log);
    } else {
        assert(s.log.subrange(0, s.log.len() as int) =~= s.log);
    }
}

/// A RequestVote request keeps the node's invariant and its log and commit
/// index; the term never goes down.  A granted vote is recorded for the
/// candidate in the candidate's term; a refused one changes nothing.
pub proof fn lemma_request_vote_step(s: RaftStateView, own_name: Seq<char>, req: VoteRequestView)
    requires
        s.well_formed(),
    ensures
        ({
            let (t, granted) = request_vote_step(s, own_name, req);
            &&& t.well_formed()
            &&& t.current_term >= s.current_term
            &&& t.log == s.log
            &&& t.commit_index == s.commit_index
            &&& t.state_type == s.state_type
            &&& !granted ==> t == s
            &&& granted ==> t.voted_for == Some(req.candidate_id) && t.current_term == req.term
            &&& granted ==> s.current_leader_id is None
        }),
{
}

/// Starting an election keeps the invariant and the log and moves to the next
/// term.
pub proof fn lemma_election_start_step(s: RaftStateView, own_name: Seq<char>)
    requires
        s.well_formed(),
        s.current_term < u64::MAX,
    ensures
        ({
            let t = election_start_step(s, own_name);
            &&& t.well_formed()
            &&& t.current_term == s.current_term + 1
            &&& t.log == s.log
            &&& t.commit_index == s.commit_index
        }),
{
}

/// Ending an election keeps the invariant, the term and the log; the node
/// leads exactly when a quorum granted its vote.
pub proof fn lemma_election_end_step(s: RaftStateView, own_id: u8, granted: nat)
    requires
        s.well_formed(),
    ensures
        ({
            let t = election_end_step(s, own_id, granted);
            &&& t.well_formed()
            &&& t.current_term == s.current_term
            &&& t.log == s.log
            &&& granted >= MAJORITY_QUORUM ==> t.state_type == RaftStateType::Leader
                && t.current_leader_id == Some(own_id) && t.voted_for is None
            &&& granted < MAJORITY_QUORUM ==> t == s
        }),
{
}

/// When the election timeout passes, a node that is not leader starts an
/// election: it becomes a candidate without leader, one term later, having
/// voted for itself, with its log and commit index kept.  A leader carries on
/// unchanged.
pub proof fn lemma_timeout_step(s: RaftStateView, own_name: Seq<char>)
    requires
        s.well_formed(),
        s.state_type != RaftStateType::Leader ==> s.current_term < u64::MAX,
    ensures
        ({
            let (t, started) = timeout_step(s, own_name);
            &&& t.well_formed()
            &&& started <==> s.state_type != RaftStateType::Leader
            &&& started ==> t.state_type == RaftStateType::Candidate && t.current_leader_id is None
                && t.current_term == s.current_term + 1 && t.voted_for == Some(own_name)
                && t.log == s.log && t.commit_index == s.commit_index
            &&& !started ==> t == s
        }),
{
}

/// A node whose log equals the leader's and whose term is not newer accepts
/// the leader's heartbeat; afterwards it follows the leader in the leader's
/// term, keeps its log and has committed at least as far as the leader.
pub proof fn lemma_heartbeat_accepted(leader: RaftStateView, leader_id: u8, node: RaftStateView)
    requires
        leader.well_formed(),
        node.well_formed(),
        node.log == leader.log,
        leader.log.len() <= u64::MAX,
        node.current_term <= leader.current_term,
    ensures
        ({
            let (t, accepted) = append_entries_step(node, heartbeat_view(leader, leader_id));
            &&& accepted
            &&& t.log == node.log
            &&& t.current_term == leader.current_term
            &&& t.current_leader_id == Some(leader_id)
            &&& t.commit_index >= leader.commit_index
            &&& t.commit_index >= node.commit_index
        }),
{
    let hb = heartbeat_view(leader, leader_id);
    assert(node.log + hb.entries =~= node.log);
}

/// A node that voted for another node in its term only grants a further vote
/// to that same candidate.
pub proof fn lemma_vote_kept_within_term(s: RaftStateView, own_name: Seq<char>, req: VoteRequestView)
    requires
        s.voted_for is Some,
        s.voted_for->0 != own_name,
        vote_granted(s, own_name, req),
    ensures
        req.candidate_id == s.voted_for->0,
{
}

/// A value put into the state machine is read back by the next get, unless
/// the key already held a value, which is read back instead.
pub proof fn lemma_get_after_put(m: Map<Seq<char>, Seq<char>>, key: String, value: String, again: String)
    requires
        again@ == key@,
    ensures
        command_step(command_step(m, KvCommand::Put { key: key, value: value }).0, KvCommand::Get { key: again }).1
            == KvResponseView::Get(Some(if m.contains_key(key@) { m[key@] } else { value@ })),
{
}

/// A removal answers whether the key held a value, and a get right after it
/// finds nothing.
pub proof fn lemma_get_after_remove(m: Map<Seq<char>, Seq<char>>, key: String, again: String)
    requires
        again@ == key@,
    ensures
        command_step(m, KvCommand::Remove { key: key }).1 == KvResponseView::Remove(m.contains_key(key@)),
        command_step(command_step(m, KvCommand::Remove { key: key }).0, KvCommand::Get { key: again }).1
            == KvResponseView::Get(None),
{
}

/// After an accepted AppendEntries request the commit index follows the
/// leader's as far as the log reaches: when the leader has committed further
/// than this node, the new commit index is the smaller of the leader's commit
/// index and the new log length; otherwise it stays.  It never passes the
/// leader's commit index when it moves.
pub proof fn lemma_commit_is_min_of_leader_and_log(s: RaftStateView, req: AppendEntriesView)
    requires
        append_entries_accepted(s, req),
        s.log.len() + req.entries.len() <= u64::MAX,
    ensures
        ({
            let (t, accepted) = append_entries_step(s, req);
            let len = s.log.len() + req.entries.len();
            &&& accepted
            &&& t.log.len() == len
            &&& req.leader_commit > s.commit_index ==> {
                &&& t.commit_index <= req.leader_commit
                &&& t.commit_index <= len
                &&& (t.commit_index == req.leader_commit || t.commit_index == len)
            }
            &&& req.leader_commit <= s.commit_index ==> t.commit_index == s.commit_index
        }),
{
}

/// A node that has already voted grants a further vote only to a candidate
/// whose log ends where its own does: at the same index and with the term of
/// its own last entry (0 for an empty log).
pub proof fn lemma_repeat_vote_needs_matching_log(s: RaftStateView, own_name: Seq<char>, req: VoteRequestView)
    requires
        s.voted_for is Some,
        request_vote_step(s, own_name, req).1,
    ensures
        req.last_log_index == s.log.len(),
        s.log.len() == 0 ==> req.last_log_term == 0,
        s.log.len() > 0 ==> req.last_log_term == s.log[s.log.len() - 1].term,
{
}

/// Every answer of the peers is counted: no answers count for nothing, and one
/// more answer adds one exactly when it grants the vote.
pub proof fn lemma_every_vote_counts(votes: Seq<bool>, vote: bool)
    ensures
        granted_count(Seq::<bool>::empty()) == 0,
        granted_count(votes.push(vote)) == granted_count(votes) + if vote { 1nat } else { 0nat },
{
    assert(votes.push(vote).drop_last() =~= votes);
}

/// The granted votes are those answers that are `true`: as many as the
/// indices that hold `true`.
pub proof fn lemma_granted_count_is_number_of_grants(votes: Seq<bool>)
    ensures
        granted_count(votes) == votes.filter(|v: bool| v).len(),
    decreases votes.len(),
{
    reveal(Seq::filter);
    if votes.len() > 0 {
        lemma_granted_count_is_number_of_grants(votes.drop_last());
    }
}

} // verus!
