use std::collections::HashMap;

use raft_kv::config::{PeerConfig, ServerConfig};
use raft_kv::text::{decimal_string, parse_u16_text};

fn table(entries: &[(u8, &str)]) -> HashMap<u8, String> {
    entries.iter().map(|(id, addr)| (*id, addr.to_string())).collect()
}

// test that the configuration can be parsed from a YAML string.
#[test]
fn test_config_from_yaml() {
    let yaml = r#"
            peers:
                1: 127.0.0.1:8080
                2: 127.0.0.1:8081
                3: 127.0.0.1:8082
                4: 127.0.0.1:8083
                5: 127.0.0.1:8084
        "#;
    let mut document: HashMap<String, HashMap<u8, String>> = serde_yaml::from_str(yaml).unwrap();
    let peers = PeerConfig { peers: document.remove("peers").unwrap() };
    assert!(peers.has_valid_entry(1));
    let config: ServerConfig = ServerConfig::from_peer_config(1, peers);
    assert_eq!(config.host, "127.0.0.1");
    assert_eq!(config.port, 8080);
    assert_eq!(config.peers.len(), 4);
}

#[test]
fn own_address_leaves_the_peer_table() {
    let peers = PeerConfig { peers: table(&[(1, "a:1"), (2, "b:2"), (3, "c:3")]) };
    let config = ServerConfig::from_peer_config(2, peers);
    assert_eq!(config.id, 2);
    assert_eq!(config.host, "b");
    assert_eq!(config.port, 2);
    assert_eq!(config.peers, table(&[(1, "a:1"), (3, "c:3")]));
}

#[test]
fn port_is_the_second_field() {
    let peers = PeerConfig { peers: table(&[(7, "host:65535:extra")]) };
    assert!(peers.has_valid_entry(7));
    let config = ServerConfig::from_peer_config(7, peers);
    assert_eq!(config.host, "host");
    assert_eq!(config.port, 65535);
    assert!(config.peers.is_empty());
}

#[test]
fn malformed_entries_are_detected() {
    let peers = PeerConfig {
        peers: table(&[(1, "no-port"), (2, "h:65536"), (3, "h:"), (4, "h:80x"), (5, "h:+80"), (6, ":9")]),
    };
    assert!(!peers.has_valid_entry(1));
    assert!(!peers.has_valid_entry(2));
    assert!(!peers.has_valid_entry(3));
    assert!(!peers.has_valid_entry(4));
    assert!(peers.has_valid_entry(5));
    assert!(peers.has_valid_entry(6));
    assert!(!peers.has_valid_entry(9));
}

#[test]
fn remove_peer_drops_one_entry() {
    let mut peers = PeerConfig { peers: table(&[(1, "a:1"), (2, "b:2")]) };
    peers.remove_peer(1);
    assert_eq!(peers.peers, table(&[(2, "b:2")]));
    peers.remove_peer(9);
    assert_eq!(peers.peers, table(&[(2, "b:2")]));
}

#[test]
fn new_keeps_its_arguments() {
    let config = ServerConfig::new(3, "localhost".to_string(), 9000, table(&[(1, "a:1")]));
    assert_eq!(config.id, 3);
    assert_eq!(config.host, "localhost");
    assert_eq!(config.port, 9000);
    assert_eq!(config.peers, table(&[(1, "a:1")]));
}

#[test]
fn u16_text_reads_as_std_does() {
    for text in ["0", "8080", "65535", "65536", "", "+", "+7", "-1", "007", "12a", "99999999999"] {
        assert_eq!(parse_u16_text(text), text.parse::<u16>().ok(), "{}", text);
    }
}

#[test]
fn decimal_string_matches_to_string() {
    for n in 0..=255u8 {
        assert_eq!(decimal_string(n), n.to_string());
    }
}
