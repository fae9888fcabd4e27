# raft_kv

A key-value store replicated with the Raft consensus protocol.

- `src/` is the verified library:
  - `raft/log.rs`: the replicated log, whose terms always strictly increase;
  - `raft/state.rs`: the state of a node and its mathematical view;
  - `raft/actor.rs`: what a node does on each protocol event (AppendEntries,
    RequestVote, election start and end, heartbeats, applying commands),
    specified as transitions over the view;
  - `raft/laws.rs`: the properties those transitions keep (the invariant,
    monotone terms and commit index, a log that only grows, ...);
  - `store.rs`: the key-value state machine;
  - `config.rs`, `text.rs`: the peer table and the reading of addresses;
  - `rpc/`: routing of client requests, replies and errors, the stand-alone
    key-value backend.
- `app/` is the server program: the JSON-RPC server and client, the task that
  runs a node with its timers and channels, and the YAML configuration.
- `tests/` exercise the library.
