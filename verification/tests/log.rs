use raft_kv::raft::log::{KvCommand, Log, LogEntry};

fn get(key: &str) -> KvCommand {
    KvCommand::Get { key: key.to_string() }
}

#[test]
fn empty_log_has_index_and_term_zero() {
    let log = Log::new();
    assert_eq!(log.last_log_index(), 0);
    assert_eq!(log.last_entry_term(), 0);
}

#[test]
fn entries_are_numbered_from_one() {
    let mut log = Log::new();
    log.add_entry(LogEntry::new(1, get("a")));
    assert_eq!(log.last_log_index(), 1);
    assert_eq!(log.last_entry_term(), 1);
    log.add_entry(LogEntry::new(4, get("b")));
    assert_eq!(log.last_log_index(), 2);
    assert_eq!(log.last_entry_term(), 4);
}

#[test]
fn first_entry_may_have_term_zero() {
    let mut log = Log::new();
    log.add_entry(LogEntry::new(0, get("a")));
    assert_eq!(log.last_log_index(), 1);
    assert_eq!(log.last_entry_term(), 0);
}

#[test]
fn log_entry_new_keeps_its_parts() {
    let entry = LogEntry::new(9, KvCommand::Put { key: "k".to_string(), value: "v".to_string() });
    assert_eq!(entry.term, 9);
    match entry.command {
        KvCommand::Put { key, value } => {
            assert_eq!(key, "k");
            assert_eq!(value, "v");
        }
        _ => panic!("wrong command"),
    }
}
