//! Client-side core for a signed, locally cached collection of records:
//! key-to-path mapping of the file cache, pluggable storage and verification,
//! and the rule that only a verified candidate is ever persisted.
pub mod storage;
pub mod signatures;
pub mod client;

pub use storage::{FileStorage, MemoryStorage, Storage, StorageError};
pub use signatures::{Collection, DefaultVerifier, Record, SignatureError, Verification};
pub use client::{Client, ClientError, Delta, FetchError, Snapshot, DEFAULT_BUCKET_NAME, DEFAULT_SERVER_URL};
