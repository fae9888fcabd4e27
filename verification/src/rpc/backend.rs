use vstd::prelude::*;

use crate::raft::actor::{AppendEntriesRequest, AppendEntriesView};
use crate::raft::log::{KvCommand, KvResponse, LogEntry};
use crate::raft::state::RaftStateType;
use crate::rpc::error::KvError;

verus! {

/// A client's request to the replicated store.
#[derive(Debug, Clone)]
pub enum ClientRequest {
    Get { key: String },
    Put { key: String, value: String },
    Remove { key: String },
}

/// The kind of a client's request.
#[derive(Debug, Clone, Copy, PartialEq, Eq, Structural)]
pub enum RequestKind {
    Get,
    Put,
    Remove,
}

/// What a node does with a client's request.
pub enum Route {
    /// A follower sends the command to its leader.
    Forward(KvCommand),
    /// The leader applies the command and broadcasts it.
    ApplyAsLeader(KvCommand),
    /// A candidate refuses the request.
    Reject(KvError),
}

/// What a client gets back: the value read, or the acknowledgement of a
/// write or a removal.
pub enum ClientReply {
    Value(Option<String>),
    Done,
}

/// The command of the state machine that a request stands for.
pub open spec fn command_of(request: ClientRequest) -> KvCommand {
    match request {
        ClientRequest::Get { key } => KvCommand::Get { key },
        ClientRequest::Put { key, value } => KvCommand::Put { key, value },
        ClientRequest::Remove { key } => KvCommand::Remove { key },
    }
}

pub open spec fn kind_of(request: ClientRequest) -> RequestKind {
    match request {
        ClientRequest::Get { .. } => RequestKind::Get,
        ClientRequest::Put { .. } => RequestKind::Put,
        ClientRequest::Remove { .. } => RequestKind::Remove,
    }
}

/// A request becomes the command of its own kind, with its own key (and
/// value, for a write).
pub proof fn lemma_request_keeps_kind_and_fields(request: ClientRequest)
    ensures
        request matches ClientRequest::Get { key } ==> command_of(request) matches KvCommand::Get { key: k } && k == key,
        request matches ClientRequest::Put { key, value } ==> command_of(request) matches KvCommand::Put { key: k, value: v }
            && k == key && v == value,
        request matches ClientRequest::Remove { key } ==> command_of(request) matches KvCommand::Remove { key: k } && k == key,
{
}

impl ClientRequest {
    pub fn kind(&self) -> (kind: RequestKind)
        ensures
            kind == kind_of(*self),
    {
        match self {
            ClientRequest::Get { .. } => RequestKind::Get,
            ClientRequest::Put { .. } => RequestKind::Put,
            ClientRequest::Remove { .. } => RequestKind::Remove,
        }
    }
}

/// Decides what a node in state `state` does with a client's request: a
/// follower forwards it to the leader, the leader applies it, a candidate
/// refuses it.  A leader has no way to serve a removal.
pub fn route_request(state: RaftStateType, request: ClientRequest) -> (route: Route)
    requires
        !(state == RaftStateType::Leader && kind_of(request) == RequestKind::Remove),
    ensures
        match route {
            Route::Forward(command) => state == RaftStateType::Follower && command == command_of(request),
            Route::ApplyAsLeader(command) => state == RaftStateType::Leader && command == command_of(request),
            Route::Reject(e) => state == RaftStateType::Candidate
                && e.message@ == "Cannot get value from candidate state"@,
        },
{
    let command = match request {
        ClientRequest::Get { key } => KvCommand::Get { key },
        ClientRequest::Put { key, value } => KvCommand::Put { key, value },
        ClientRequest::Remove { key } => KvCommand::Remove { key },
    };
    match state {
        RaftStateType::Follower => Route::Forward(command),
        RaftStateType::Leader => Route::ApplyAsLeader(command),
        RaftStateType::Candidate => Route::Reject(
            KvError::new(String::from_str("Cannot get value from candidate state")),
        ),
    }
}

/// The answer to a client once its request went its route: `forwarded` tells
/// whether the leader got it from this node, `outcome` is the state machine's
/// answer or what went wrong on the way.  A read answers the value it found;
/// a forwarded write or removal must have been applied to succeed, and a
/// leader acknowledges a write at once.
pub fn client_reply(kind: RequestKind, forwarded: bool, outcome: Result<KvResponse, KvError>) -> (reply: Result<ClientReply, KvError>)
    requires
        !(kind == RequestKind::Remove && !forwarded),
    ensures
        kind == RequestKind::Get ==> match outcome {
            Ok(KvResponse::Get(Some(v))) => reply matches Ok(ClientReply::Value(Some(r))) && r == v,
            _ => reply matches Err(e) && e.message@ == "Failed to get value"@,
        },
        kind == RequestKind::Put && forwarded ==> match outcome {
            Ok(KvResponse::Put(true)) => reply matches Ok(ClientReply::Done),
            _ => reply matches Err(e) && e.message@ == "Failed to set value"@,
        },
        kind == RequestKind::Put && !forwarded ==> reply matches Ok(ClientReply::Done),
        kind == RequestKind::Remove ==> match outcome {
            Ok(KvResponse::Remove(true)) => reply matches Ok(ClientReply::Done),
            _ => reply matches Err(e) && e.message@ == "Failed to remove"@,
        },
{
    match kind {
        RequestKind::Get => match outcome {
            Ok(KvResponse::Get(Some(value))) => Ok(ClientReply::Value(Some(value))),
            _ => Err(KvError::new(String::from_str("Failed to get value"))),
        },
        RequestKind::Put => {
            if !forwarded {
                return Ok(ClientReply::Done);
            }
            match outcome {
                Ok(KvResponse::Put(true)) => Ok(ClientReply::Done),
                _ => Err(KvError::new(String::from_str("Failed to set value"))),
            }
        },
        RequestKind::Remove => match outcome {
            Ok(KvResponse::Remove(true)) => Ok(ClientReply::Done),
            _ => Err(KvError::new(String::from_str("Failed to remove"))),
        },
    }
}

/// Where and what a follower sends to hand a command to its leader.
pub struct LeaderForward {
    pub leader_id: u8,
    pub leader_host: String,
    pub request: AppendEntriesRequest,
}

/// Prepares the hand-over of `command` to the leader: an AppendEntries
/// request of term 0 from the leader's id, after this node's last entry
/// (`last_log` is its index and term), with the command as its only entry and
/// a commit index of 0.  Without a known leader the request fails.
pub fn forward_to_leader(leader: Option<(u8, String)>, last_log: (u64, u64), command: KvCommand) -> (forward: Result<LeaderForward, KvError>)
    ensures
        leader is None <==> forward is Err,
        forward matches Err(e) ==> e.message@ == "protocol error: follower without leader"@,
        forward matches Ok(f) ==> {
            &&& leader == Some((f.leader_id, f.leader_host))
            &&& f.request@ == (AppendEntriesView {
                term: 0,
                leader_id: f.leader_id,
                prev_log_index: last_log.0,
                prev_log_term: last_log.1,
                entries: seq![LogEntry { term: 0, command: command }],
                leader_commit: 0,
            })
        },
{
    match leader {
        None => Err(KvError::new(String::from_str("protocol error: follower without leader"))),
        Some((leader_id, leader_host)) => {
            let mut entries = Vec::new();
            entries.push(LogEntry::new(0, command));
            Ok(LeaderForward {
                leader_id,
                leader_host,
                request: AppendEntriesRequest {
                    term: 0,
                    leader_id,
                    prev_log_index: last_log.0,
                    prev_log_term: last_log.1,
                    entries,
                    leader_commit: 0,
                },
            })
        },
    }
}

/// The error of a forwarded command that the leader did not accept.
pub fn leader_refusal() -> (e: KvError)
    ensures
        e.message@ == "Failed to send command to leader"@,
{
    KvError::new(String::from_str("Failed to send command to leader"))
}

} // verus!
