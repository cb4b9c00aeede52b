use vstd::prelude::*;
use crate::signatures::{apply_changes, modified_by, Collection, Record, SignatureError, Verification};
use crate::storage::{Storage, StorageError};

verus! {

pub const DEFAULT_BUCKET_NAME: &'static str = "main";

pub const DEFAULT_SERVER_URL: &'static str = "https://firefox.settings.services.mozilla.com/v1";

/// Why the server's changes could not be had.
#[derive(Debug, Clone, PartialEq, Eq)]
pub enum FetchError {
    /// The server could not be reached, or did not answer in time.
    Unreachable { reason: String },
    /// The server's answer could not be understood.
    Malformed { reason: String },
}

/// The changes since a cursor, as the server returned them.
#[derive(Debug, PartialEq, Eq)]
pub struct Delta {
    pub changes: Vec<Record>,
    /// The server's new cursor.
    pub cursor: u64,
    pub signature: Option<String>,
}

/// The collection a sync attempt works with.
#[derive(Debug, PartialEq, Eq)]
pub enum Snapshot {
    /// A candidate built from the cache and the server's changes, to be verified.
    Fresh(Collection),
    /// The cached collection, returned as it was because the fetch failed.
    Stale(Collection),
}

/// Why a sync did not produce a persisted collection.
#[derive(Debug, PartialEq, Eq)]
pub enum ClientError {
    /// The changes could not be fetched and nothing was cached.
    Fetch(FetchError),
    /// The candidate was not attested; nothing was persisted.
    Signature(SignatureError),
    /// The attested candidate could not be persisted.
    Storage(StorageError),
}

/// The storage key of the cached collection `collection` of bucket `bucket`.
pub open spec fn cache_key_of(bucket: Seq<char>, collection: Seq<char>) -> Seq<char> {
    bucket + seq!['/'] + collection
}

/// A client of one collection, with the store that caches it and the policy
/// that attests it. Its configuration is fixed at construction. Every write
/// to the store goes through `&mut self`, so callers that share a client
/// across threads hold it behind a lock, and one sync's read, verification
/// and write are never interleaved with another's.
pub struct Client<S: Storage, V: Verification> {
    bucket_name: String,
    collection_name: String,
    server_url: String,
    storage: S,
    verification: V,
    fallback: bool,
}

impl<S: Storage, V: Verification> Client<S, V> {
    pub closed spec fn bucket(&self) -> Seq<char> {
        self.bucket_name@
    }

    pub closed spec fn collection(&self) -> Seq<char> {
        self.collection_name@
    }

    pub closed spec fn server(&self) -> Seq<char> {
        self.server_url@
    }

    /// Whether a rejected candidate gives back the cached collection rather
    /// than the verification error.
    pub closed spec fn falls_back(&self) -> bool {
        self.fallback
    }

    pub closed spec fn store_state(&self) -> S {
        self.storage
    }

    pub closed spec fn policy(&self) -> V {
        self.verification
    }

    pub fn new(bucket_name: String, collection_name: String, server_url: String, storage: S, verifier: V) -> (r: Self)
        ensures
            r.bucket() == bucket_name@,
            r.collection() == collection_name@,
            r.server() == server_url@,
            r.store_state() == storage,
            r.policy() == verifier,
            !r.falls_back(),
    {
        Client { bucket_name, collection_name, server_url, storage, verification: verifier, fallback: false }
    }

    /// A client of `collection_name` in the default bucket, on the default server.
    pub fn with_defaults(collection_name: String, storage: S, verifier: V) -> (r: Self)
        ensures
            r.bucket() == DEFAULT_BUCKET_NAME@,
            r.collection() == collection_name@,
            r.server() == DEFAULT_SERVER_URL@,
            r.store_state() == storage,
            r.policy() == verifier,
            !r.falls_back(),
    {
        Client {
            bucket_name: String::from_str(DEFAULT_BUCKET_NAME),
            collection_name,
            server_url: String::from_str(DEFAULT_SERVER_URL),
            storage,
            verification: verifier,
            fallback: false,
        }
    }

    /// The same client, set to fall back to the cached collection when a
    /// candidate is rejected (`on`), or to report the rejection.
    pub fn fall_back_on_rejection(self, on: bool) -> (r: Self)
        ensures
            r.falls_back() == on,
            r.bucket() == self.bucket(),
            r.collection() == self.collection(),
            r.server() == self.server(),
            r.store_state() == self.store_state(),
            r.policy() == self.policy(),
    {
        Client { fallback: on, ..self }
    }

    pub fn bucket_name(&self) -> (r: &str)
        ensures
            r@ == self.bucket(),
    {
        self.bucket_name.as_str()
    }

    pub fn collection_name(&self) -> (r: &str)
        ensures
            r@ == self.collection(),
    {
        self.collection_name.as_str()
    }

    pub fn server_url(&self) -> (r: &str)
        ensures
            r@ == self.server(),
    {
        self.server_url.as_str()
    }

    pub fn storage(&self) -> (r: &S)
        ensures
            *r == self.store_state(),
    {
        &self.storage
    }

    pub fn verification(&self) -> (r: &V)
        ensures
            *r == self.policy(),
    {
        &self.verification
    }

    /// The key under which this client's collection is cached.
    pub fn cache_key(&self) -> (r: String)
        ensures
            r@ == cache_key_of(self.bucket(), self.collection()),
    {
        let mut r = String::from_str(self.bucket_name.as_str());
        r.append("/");
        proof {
            reveal_strlit("/");
        }
        r.append(self.collection_name.as_str());
        r
    }

    /// The cached form of this client's collection, if there is one.
    pub fn cached(&self) -> (r: Result<Option<Vec<u8>>, StorageError>)
        ensures
            r matches Ok(Some(v)) ==> self.store_state().stored(cache_key_of(self.bucket(), self.collection())) == Some(v@),
            self.store_state().stored(cache_key_of(self.bucket(), self.collection())) is None ==> r matches Ok(None),
    {
        let key = self.cache_key();
        self.storage.retrieve(key.as_str())
    }

    /// The cursor to ask the server for changes since: that of the cached
    /// collection, or none for the full dataset.
    pub fn since(cached: &Option<Collection>) -> (r: Option<u64>)
        ensures
            r == match cached {
                Some(c) => Some(c.timestamp),
                None => None::<u64>,
            },
    {
        match cached {
            Some(c) => Some(c.timestamp),
            None => None,
        }
    }

    /// The collection to continue with once the server has answered: the
    /// cached collection (empty where there is none) with the changes applied;
    /// where the fetch failed, the cached collection as stale, or the fetch
    /// error where nothing was cached.
    pub fn candidate(&self, cached: Option<Collection>, fetched: Result<Delta, FetchError>) -> (r: Result<Snapshot, ClientError>)
        ensures
            match (cached, fetched) {
                (Some(c), Ok(d)) => r matches Ok(Snapshot::Fresh(n)) && n.bucket_name == c.bucket_name
                    && n.collection_name == c.collection_name
                    && n.records@ == apply_changes(c.records@, d.changes@)
                    && n.timestamp == if d.cursor > c.timestamp { d.cursor } else { c.timestamp }
                    && n.signature == d.signature
                    && (c.wf() && modified_by(d.changes@, n.timestamp) ==> n.wf()),
                (None, Ok(d)) => r matches Ok(Snapshot::Fresh(n)) && n.bucket_name@ == self.bucket()
                    && n.collection_name@ == self.collection()
                    && n.records@ == apply_changes(Seq::empty(), d.changes@)
                    && n.timestamp == d.cursor
                    && n.signature == d.signature
                    && (modified_by(d.changes@, d.cursor) ==> n.wf()),
                (Some(c), Err(_)) => r == Ok::<Snapshot, ClientError>(Snapshot::Stale(c)),
                (None, Err(e)) => r == Err::<Snapshot, ClientError>(ClientError::Fetch(e)),
            },
    {
        match fetched {
            Ok(d) => {
                let base = match cached {
                    Some(c) => c,
                    None => Collection {
                        bucket_name: self.bucket_name.clone(),
                        collection_name: self.collection_name.clone(),
                        records: Vec::new(),
                        timestamp: 0,
                        signature: None,
                    },
                };
                assert(base.records@.len() == 0 ==> base.wf());
                Ok(Snapshot::Fresh(base.merge(&d.changes, d.cursor, d.signature)))
            },
            Err(e) => match cached {
                Some(c) => Ok(Snapshot::Stale(c)),
                None => Err(ClientError::Fetch(e)),
            },
        }
    }

    /// Attests `candidate` and, only where that succeeds, persists `encoded`,
    /// its cached form, under this client's key. A rejected candidate leaves
    /// the store as it was.
    pub fn commit(&mut self, candidate: &Collection, encoded: Vec<u8>) -> (r: Result<(), ClientError>)
        ensures
            final(self).policy() == old(self).policy(),
            final(self).bucket() == old(self).bucket(),
            final(self).collection() == old(self).collection(),
            final(self).server() == old(self).server(),
            final(self).falls_back() == old(self).falls_back(),
            !old(self).policy().accepts(candidate) <==> r matches Err(ClientError::Signature(_)),
            !(r matches Err(ClientError::Fetch(_))),
            !old(self).policy().accepts(candidate) ==> final(self).store_state() == old(self).store_state(),
            r is Ok ==> old(self).policy().accepts(candidate) && forall|k: Seq<char>| #[trigger] final(self).store_state().stored(k)
                == if k == cache_key_of(old(self).bucket(), old(self).collection()) { Some(encoded@) } else { old(self).store_state().stored(k) },
            r matches Err(ClientError::Storage(_)) ==> forall|k: Seq<char>| #[trigger] final(self).store_state().stored(k)
                == old(self).store_state().stored(k),
    {
        match self.verification.verify(candidate) {
            Err(e) => Err(ClientError::Signature(e)),
            Ok(()) => {
                let key = self.cache_key();
                match self.storage.store(key.as_str(), encoded) {
                    Ok(()) => Ok(()),
                    Err(e) => Err(ClientError::Storage(e)),
                }
            },
        }
    }
}

impl<S: Storage, V: Verification> Client<S, V> {
    /// Ends a sync attempt. A stale snapshot is handed back and nothing is
    /// stored. A fresh candidate is committed with `encoded`, its cached form,
    /// and handed back once persisted; where it is rejected, the cached
    /// collection is handed back instead if this client falls back and one
    /// exists, else the rejection is reported. Only an accepted candidate is
    /// ever written.
    pub fn settle(&mut self, snapshot: Snapshot, encoded: Vec<u8>, cached: Option<Collection>) -> (r: Result<Collection, ClientError>)
        ensures
            final(self).policy() == old(self).policy(),
            final(self).falls_back() == old(self).falls_back(),
            final(self).bucket() == old(self).bucket(),
            final(self).collection() == old(self).collection(),
            final(self).server() == old(self).server(),
            snapshot is Stale ==> final(self).store_state() == old(self).store_state(),
            snapshot matches Snapshot::Stale(c) ==> r == Ok::<Collection, ClientError>(c),
            snapshot is Fresh && old(self).policy().accepts(&snapshot->Fresh_0) && r is Ok
                ==> r == Ok::<Collection, ClientError>(snapshot->Fresh_0),
            snapshot is Fresh && old(self).policy().accepts(&snapshot->Fresh_0) && r is Ok
                ==> forall|k: Seq<char>| #[trigger] final(self).store_state().stored(k)
                    == if k == cache_key_of(old(self).bucket(), old(self).collection()) {
                        Some(encoded@)
                    } else {
                        old(self).store_state().stored(k)
                    },
            snapshot is Fresh && old(self).policy().accepts(&snapshot->Fresh_0) && r is Err
                ==> r matches Err(ClientError::Storage(_)),
            snapshot is Fresh && old(self).policy().accepts(&snapshot->Fresh_0) && r is Err
                ==> forall|k: Seq<char>| #[trigger] final(self).store_state().stored(k)
                    == old(self).store_state().stored(k),
            snapshot is Fresh && !old(self).policy().accepts(&snapshot->Fresh_0)
                ==> final(self).store_state() == old(self).store_state(),
            snapshot is Fresh && !old(self).policy().accepts(&snapshot->Fresh_0) ==> match cached {
                Some(c) => if old(self).falls_back() {
                    r == Ok::<Collection, ClientError>(c)
                } else {
                    r matches Err(ClientError::Signature(_))
                },
                None => r matches Err(ClientError::Signature(_)),
            },
    {
        match snapshot {
            Snapshot::Stale(c) => Ok(c),
            Snapshot::Fresh(n) => match self.commit(&n, encoded) {
                Ok(()) => Ok(n),
                Err(ClientError::Signature(e)) => match cached {
                    Some(c) => if self.fallback {
                        Ok(c)
                    } else {
                        Err(ClientError::Signature(e))
                    },
                    None => Err(ClientError::Signature(e)),
                },
                Err(e) => Err(e),
            },
        }
    }
}

} // verus!
