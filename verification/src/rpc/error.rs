use vstd::prelude::*;

verus! {

/// An error answered to a client; the RPC layer turns it into an error object
/// with code 0 and this message.
#[derive(Debug, Clone)]
pub struct KvError {
    pub message: String,
}

impl KvError {
    pub fn new(message: String) -> (e: KvError)
        ensures
            e.message == message,
    {
        KvError { message }
    }

    /// The error for a key that holds no value.
    pub fn key_not_found(key: &String) -> (e: KvError)
        ensures
            e.message@ == "Key not found: "@ + key@,
    {
        KvError { message: String::from_str("Key not found: ").concat(key.as_str()) }
    }
}

/// The version that the RPC servers report.
pub fn api_version() -> (version: String)
    ensures
        version@ == "0.1.0"@,
{
    String::from_str("0.1.0")
}

} // verus!
