use vstd::prelude::*;

verus! {

/// The server of the consensus test RPC.
pub struct RaftRpcBackend {}

impl RaftRpcBackend {
    pub fn new() -> RaftRpcBackend {
        RaftRpcBackend {}
    }

    /// The answer of the `test` RPC.
    pub fn test(&self) -> (answer: String)
        ensures
            answer@ == "test passed"@,
    {
        String::from_str("test passed")
    }
}

} // verus!
