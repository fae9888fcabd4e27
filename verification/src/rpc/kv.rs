use vstd::prelude::*;

use crate::rpc::error::{KvError, api_version};
use crate::store::{KvStore, kv_after_set};

verus! {

/// A stand-alone key-value server: the store behind the `kv` RPCs.
pub struct KvRpcBackend {
    pub kv: KvStore,
}

impl KvRpcBackend {
    pub fn new() -> (backend: KvRpcBackend)
        ensures
            backend.kv@ == Map::<Seq<char>, Seq<char>>::empty(),
    {
        KvRpcBackend { kv: KvStore::new() }
    }

    pub fn version(&self) -> (version: String)
        ensures
            version@ == "0.1.0"@,
    {
        api_version()
    }

    /// The value of `key`; an error when it holds none.
    pub fn get(&self, key: String) -> (result: Result<Option<String>, KvError>)
        ensures
            result is Ok <==> self.kv@.contains_key(key@),
            result matches Ok(v) ==> v is Some && v->0@ == self.kv@[key@],
            result matches Err(e) ==> e.message@ == "Key not found: "@ + key@,
    {
        match self.kv.get(&key) {
            Some(value) => Ok(Some(value)),
            None => Err(KvError::key_not_found(&key)),
        }
    }

    /// Stores `value` under `key` unless the key already holds a value.
    pub fn set(&mut self, key: String, value: String) -> (result: Result<(), KvError>)
        ensures
            result is Ok,
            final(self).kv@ == kv_after_set(old(self).kv@, key@, value@),
    {
        // a key that already holds a value keeps it
        self.kv.set(key, value);
        Ok(())
    }

    /// Removes `key`; an error when it holds no value.
    pub fn remove(&mut self, key: String) -> (result: Result<(), KvError>)
        ensures
            result is Ok <==> old(self).kv@.contains_key(key@),
            final(self).kv@ == old(self).kv@.remove(key@),
            result matches Err(e) ==> e.message@ == "Key not found: "@ + key@,
    {
        match self.kv.remove(&key) {
            Some(_) => Ok(()),
            None => Err(KvError::key_not_found(&key)),
        }
    }
}

} // verus!
