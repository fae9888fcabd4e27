pub mod backend;
pub mod consensus;
pub mod error;
pub mod kv;
