use raft_kv::rpc::consensus::RaftRpcBackend;
use raft_kv::rpc::error::KvError;
use raft_kv::rpc::kv::KvRpcBackend;
use raft_kv::store::KvStore;

fn s(text: &str) -> String {
    text.to_string()
}

#[test]
fn read_after_write() {
    let mut store = KvStore::new();
    assert_eq!(store.get(&s("k")), None);
    store.set(s("k"), s("v"));
    assert_eq!(store.get(&s("k")), Some(s("v")));
}

#[test]
fn first_write_wins() {
    let mut store = KvStore::new();
    store.set(s("k"), s("one"));
    store.set(s("k"), s("two"));
    assert_eq!(store.get(&s("k")), Some(s("one")));
}

#[test]
fn remove_returns_the_value_and_forgets_it() {
    let mut store = KvStore::new();
    store.set(s("a"), s("1"));
    store.set(s("b"), s("2"));
    store.set(s("c"), s("3"));
    assert_eq!(store.remove(&s("b")), Some(s("2")));
    assert_eq!(store.remove(&s("b")), None);
    assert_eq!(store.get(&s("b")), None);
    assert_eq!(store.get(&s("a")), Some(s("1")));
    assert_eq!(store.get(&s("c")), Some(s("3")));
    store.set(s("b"), s("4"));
    assert_eq!(store.get(&s("b")), Some(s("4")));
}

#[test]
fn kv_backend_answers_and_errors() {
    let mut backend = KvRpcBackend::new();
    assert_eq!(backend.version(), "0.1.0");
    match backend.get(s("hola")) {
        Err(KvError { message }) => assert_eq!(message, "Key not found: hola"),
        Ok(_) => panic!("missing key must fail"),
    }
    assert!(backend.set(s("hola"), s("como estas")).is_ok());
    assert_eq!(backend.get(s("hola")).unwrap(), Some(s("como estas")));
    assert!(backend.set(s("hola"), s("otra")).is_ok());
    assert_eq!(backend.get(s("hola")).unwrap(), Some(s("como estas")));
    assert!(backend.remove(s("hola")).is_ok());
    match backend.remove(s("hola")) {
        Err(e) => assert_eq!(e.message, "Key not found: hola"),
        Ok(_) => panic!("second removal must fail"),
    }
}

#[test]
fn consensus_test_answer() {
    assert_eq!(RaftRpcBackend::new().test(), "test passed");
}
