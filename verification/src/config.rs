use vstd::prelude::*;

use std::collections::HashMap;

use crate::text::{
    find_field_end, has_port_field, host_field, parse_u16, parse_u16_text, port_field,
};

verus! {

broadcast use vstd::std_specs::hash::group_hash_axioms;

/// The address of `id` in `peers` is present and of the form `host:port`,
/// with a port that reads as a `u16`: what a server needs to find its own
/// address in a peer table.
pub open spec fn peer_entry_valid(peers: Map<u8, String>, id: u8) -> bool {
    &&& peers.contains_key(id)
    &&& has_port_field(peers[id]@)
    &&& parse_u16(port_field(peers[id]@)) is Some
}

/// The peer table of a cluster: the `host:port` address of every server by
/// its id.
#[derive(Debug, Clone)]
pub struct PeerConfig {
    pub peers: HashMap<u8, String>,
}

impl PeerConfig {
    pub fn remove_peer(&mut self, id: u8)
        ensures
            final(self).peers@ == old(self).peers@.remove(id),
    {
        self.peers.remove(&id);
    }

    /// Whether the table holds a well-formed address for `id`.
    pub fn has_valid_entry(&self, id: u8) -> (valid: bool)
        ensures
            valid == peer_entry_valid(self.peers@, id),
    {
        match self.peers.get(&id) {
            None => false,
            Some(address) => {
                let text = address.as_str();
                let len = text.unicode_len();
                let host_end = find_field_end(text, len, 0);
                if host_end >= len {
                    false
                } else {
                    let port_end = find_field_end(text, len, host_end + 1);
                    let port_text = text.substring_char(host_end + 1, port_end);
                    parse_u16_text(port_text).is_some()
                }
            },
        }
    }
}

/// The configuration of one server: its id, the host and port it listens on
/// and the addresses of the other servers.
#[derive(Debug, Clone)]
pub struct ServerConfig {
    pub id: u8,
    pub host: String,
    pub port: u16,
    pub peers: HashMap<u8, String>,
}

impl ServerConfig {
    pub fn new(id: u8, host: String, port: u16, peers: HashMap<u8, String>) -> (config: ServerConfig)
        ensures
            config.id == id,
            config.host == host,
            config.port == port,
            config.peers@ == peers@,
    {
        Self { id, host, port, peers }
    }

    /// The configuration of server `id` in a cluster whose peer table is
    /// `peer_config`: its own address is taken out of the table and split
    /// into host and port; the rest of the table are its peers.
    pub fn from_peer_config(id: u8, peer_config: PeerConfig) -> (config: ServerConfig)
        requires
            peer_entry_valid(peer_config.peers@, id),
        ensures
            config.id == id,
            config.host@ == host_field(peer_config.peers@[id]@),
            config.port == parse_u16(port_field(peer_config.peers@[id]@))->0,
            config.peers@ == peer_config.peers@.remove(id),
    {
        let mut peers = peer_config;
        let address = peers.peers.get(&id).unwrap().clone();
        let text = address.as_str();
        let len = text.unicode_len();
        let host_end = find_field_end(text, len, 0);
        let port_end = find_field_end(text, len, host_end + 1);
        let host = text.substring_char(0, host_end).to_owned();
        let port = parse_u16_text(text.substring_char(host_end + 1, port_end)).unwrap();
        peers.remove_peer(id);
        Self { id, host, port, peers: peers.peers }
    }
}

} // verus!
