use raft_kv::raft::log::{KvCommand, KvResponse};
use raft_kv::raft::state::RaftStateType;
use raft_kv::rpc::backend::{client_reply, forward_to_leader, leader_refusal, route_request, ClientReply, ClientRequest, RequestKind, Route};
use raft_kv::rpc::error::KvError;

fn get(key: &str) -> ClientRequest {
    ClientRequest::Get { key: key.to_string() }
}

#[test]
fn followers_forward_leaders_apply_candidates_refuse() {
    match route_request(RaftStateType::Follower, get("k")) {
        Route::Forward(KvCommand::Get { key }) => assert_eq!(key, "k"),
        _ => panic!("follower must forward"),
    }
    match route_request(RaftStateType::Leader, ClientRequest::Put { key: "k".into(), value: "v".into() }) {
        Route::ApplyAsLeader(KvCommand::Put { key, value }) => assert_eq!((key.as_str(), value.as_str()), ("k", "v")),
        _ => panic!("leader must apply"),
    }
    match route_request(RaftStateType::Candidate, ClientRequest::Remove { key: "k".into() }) {
        Route::Reject(e) => assert_eq!(e.message, "Cannot get value from candidate state"),
        _ => panic!("candidate must refuse"),
    }
    assert_eq!(ClientRequest::Remove { key: "k".into() }.kind(), RequestKind::Remove);
}

#[test]
fn replies_follow_the_state_machine() {
    match client_reply(RequestKind::Get, true, Ok(KvResponse::Get(Some("v".into())))) {
        Ok(ClientReply::Value(Some(v))) => assert_eq!(v, "v"),
        _ => panic!("value expected"),
    }
    match client_reply(RequestKind::Get, false, Ok(KvResponse::Get(None))) {
        Err(e) => assert_eq!(e.message, "Failed to get value"),
        _ => panic!("error expected"),
    }
    assert!(matches!(client_reply(RequestKind::Put, true, Ok(KvResponse::Put(true))), Ok(ClientReply::Done)));
    match client_reply(RequestKind::Put, true, Err(KvError::new("down".into()))) {
        Err(e) => assert_eq!(e.message, "Failed to set value"),
        _ => panic!("error expected"),
    }
    assert!(matches!(client_reply(RequestKind::Put, false, Ok(KvResponse::Put(false))), Ok(ClientReply::Done)));
    assert!(matches!(client_reply(RequestKind::Remove, true, Ok(KvResponse::Remove(true))), Ok(ClientReply::Done)));
    match client_reply(RequestKind::Remove, true, Ok(KvResponse::Remove(false))) {
        Err(e) => assert_eq!(e.message, "Failed to remove"),
        _ => panic!("error expected"),
    }
}

#[test]
fn forwarding_needs_a_leader() {
    match forward_to_leader(None, (0, 0), KvCommand::Get { key: "k".into() }) {
        Err(e) => assert_eq!(e.message, "protocol error: follower without leader"),
        Ok(_) => panic!("error expected"),
    }
    let forward = forward_to_leader(Some((3, "127.0.0.1:8082".into())), (4, 2), KvCommand::Get { key: "k".into() }).unwrap();
    assert_eq!(forward.leader_id, 3);
    assert_eq!(forward.leader_host, "127.0.0.1:8082");
    let r = &forward.request;
    assert_eq!((r.term, r.leader_id, r.prev_log_index, r.prev_log_term, r.leader_commit), (0, 3, 4, 2, 0));
    assert_eq!(r.entries.len(), 1);
    assert_eq!(r.entries[0].term, 0);
    assert!(matches!(&r.entries[0].command, KvCommand::Get { key } if key == "k"));
    assert_eq!(leader_refusal().message, "Failed to send command to leader");
}
