//! A small replicated key-value store driven by the Raft consensus protocol.
//!
//! The verified library holds the protocol's data (the replicated log and the
//! per-node Raft state), the decisions that a node takes on each protocol
//! event, the key-value state machine, the peer configuration and the routing
//! of client requests.  Networking, timers and the RPC server live outside.
pub mod raft;
pub mod text;
pub mod store;
pub mod config;
pub mod rpc;
