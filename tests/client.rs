use remote_settings_client::{
    Client, ClientError, Collection, Delta, DefaultVerifier, FetchError, MemoryStorage, Record,
    SignatureError, Snapshot, Storage, Verification, DEFAULT_BUCKET_NAME,
    DEFAULT_SERVER_URL,
};

fn record(id: &str, last_modified: u64, deleted: bool, data: &str) -> Record {
    Record {
        id: id.to_string(),
        last_modified,
        deleted,
        data: data.to_string(),
    }
}

fn collection(records: Vec<Record>, timestamp: u64) -> Collection {
    Collection {
        bucket_name: "main".to_string(),
        collection_name: "search-config".to_string(),
        records,
        timestamp,
        signature: None,
    }
}

#[test]
fn default_verifier_accepts_anything() {
    let v = DefaultVerifier::new();
    assert_eq!(v.verify(&collection(vec![], 0)), Ok(()));
    assert_eq!(v.verify(&collection(vec![record("a", 1, true, "")], 7)), Ok(()));
}

#[test]
fn defaults_are_applied() {
    let client = Client::with_defaults("search-config".to_string(), MemoryStorage::new(), DefaultVerifier::new());
    assert_eq!(client.bucket_name(), DEFAULT_BUCKET_NAME);
    assert_eq!(client.bucket_name(), "main");
    assert_eq!(client.server_url(), DEFAULT_SERVER_URL);
    assert_eq!(client.collection_name(), "search-config");
    assert_eq!(client.cache_key(), "main/search-config");
}

#[test]
fn accepted_candidate_is_persisted() {
    let mut client = Client::new(
        "main-preview".to_string(),
        "cfg".to_string(),
        "http://localhost".to_string(),
        MemoryStorage::new(),
        DefaultVerifier::new(),
    );
    assert_eq!(client.cached(), Ok(None));
    let candidate = collection(vec![record("a", 1, false, "{}")], 1);
    assert_eq!(client.commit(&candidate, vec![1, 2, 3]), Ok(()));
    assert_eq!(client.cached(), Ok(Some(vec![1, 2, 3])));
    assert_eq!(client.storage().retrieve("main-preview/cfg"), Ok(Some(vec![1, 2, 3])));
}

struct Rejecting;

impl Verification for Rejecting {
    fn accepts(&self, _collection: &Collection) -> bool {
        false
    }

    fn verify(&self, _collection: &Collection) -> Result<(), SignatureError> {
        Err(SignatureError::MissingSignature)
    }
}

#[test]
fn rejected_candidate_is_not_persisted() {
    let mut storage = MemoryStorage::new();
    storage.store("main/cfg", vec![9]).unwrap();
    let mut client = Client::with_defaults("cfg".to_string(), storage, Rejecting);
    let candidate = collection(vec![record("a", 1, false, "{}")], 1);
    assert_eq!(
        client.commit(&candidate, vec![1, 2, 3]),
        Err(ClientError::Signature(SignatureError::MissingSignature))
    );
    assert_eq!(client.cached(), Ok(Some(vec![9])));
}

#[test]
fn merge_applies_changes_in_order() {
    let cached = collection(
        vec![record("a", 10, false, "a1"), record("b", 20, false, "b1"), record("c", 30, false, "c1")],
        30,
    );
    let changes = vec![
        record("a", 40, false, "a2"),
        record("b", 5, false, "stale"),
        record("c", 41, true, ""),
        record("d", 42, false, "d1"),
        record("e", 43, true, ""),
    ];
    let merged = cached.merge(&changes, 43, Some("sig".to_string()));
    assert_eq!(
        merged.records,
        vec![record("a", 40, false, "a2"), record("b", 20, false, "b1"), record("d", 42, false, "d1")]
    );
    assert_eq!(merged.timestamp, 43);
    assert_eq!(merged.signature, Some("sig".to_string()));
    assert_eq!(merged.bucket_name, "main");
    assert_eq!(cached.records.len(), 3);
}

#[test]
fn merge_never_moves_timestamp_back() {
    let cached = collection(vec![], 100);
    let merged = cached.merge(&vec![], 50, None);
    assert_eq!(merged.timestamp, 100);
    assert!(merged.records.is_empty());
}

#[test]
fn since_follows_the_cache() {
    type C = Client<MemoryStorage, DefaultVerifier>;
    assert_eq!(C::since(&None), None);
    assert_eq!(C::since(&Some(collection(vec![], 1234))), Some(1234));
}

#[test]
fn candidate_without_cache_starts_empty() {
    let client = Client::with_defaults("search-config".to_string(), MemoryStorage::new(), DefaultVerifier::new());
    let delta = Delta {
        changes: vec![record("a", 5, false, "a1"), record("b", 6, true, "")],
        cursor: 6,
        signature: Some("sig".to_string()),
    };
    let expected = Collection {
        bucket_name: "main".to_string(),
        collection_name: "search-config".to_string(),
        records: vec![record("a", 5, false, "a1")],
        timestamp: 6,
        signature: Some("sig".to_string()),
    };
    assert_eq!(client.candidate(None, Ok(delta)), Ok(Snapshot::Fresh(expected)));
}

#[test]
fn candidate_merges_into_cache() {
    let client = Client::with_defaults("search-config".to_string(), MemoryStorage::new(), DefaultVerifier::new());
    let cached = collection(vec![record("a", 5, false, "a1")], 5);
    let delta = Delta {
        changes: vec![record("a", 8, false, "a2")],
        cursor: 8,
        signature: None,
    };
    assert_eq!(
        client.candidate(Some(cached), Ok(delta)),
        Ok(Snapshot::Fresh(collection(vec![record("a", 8, false, "a2")], 8)))
    );
}

#[test]
fn failed_fetch_falls_back_to_cache() {
    let client = Client::with_defaults("search-config".to_string(), MemoryStorage::new(), DefaultVerifier::new());
    let cached = collection(vec![record("a", 5, false, "a1")], 5);
    let err = FetchError::Unreachable {
        reason: "timeout".to_string(),
    };
    assert_eq!(
        client.candidate(Some(cached.clone()), Err(err)),
        Ok(Snapshot::Stale(cached))
    );
}

#[test]
fn failed_fetch_without_cache_is_an_error() {
    let client = Client::with_defaults("search-config".to_string(), MemoryStorage::new(), DefaultVerifier::new());
    let err = FetchError::Malformed {
        reason: "bad json".to_string(),
    };
    assert_eq!(
        client.candidate(None, Err(err.clone())),
        Err(ClientError::Fetch(err))
    );
}

#[test]
fn settle_persists_accepted_candidate() {
    let mut client = Client::with_defaults("cfg".to_string(), MemoryStorage::new(), DefaultVerifier::new());
    let fresh = collection(vec![record("a", 3, false, "a")], 3);
    assert_eq!(client.settle(Snapshot::Fresh(fresh.clone()), vec![7, 7], None), Ok(fresh));
    assert_eq!(client.cached(), Ok(Some(vec![7, 7])));
}

#[test]
fn settle_hands_back_stale_without_storing() {
    let mut client = Client::with_defaults("cfg".to_string(), MemoryStorage::new(), DefaultVerifier::new());
    let stale = collection(vec![record("a", 3, false, "a")], 3);
    assert_eq!(client.settle(Snapshot::Stale(stale.clone()), vec![7, 7], None), Ok(stale));
    assert_eq!(client.cached(), Ok(None));
}

#[test]
fn settle_reports_rejection_without_fallback() {
    let mut client = Client::with_defaults("cfg".to_string(), MemoryStorage::new(), Rejecting);
    let cached = collection(vec![record("a", 1, false, "old")], 1);
    let fresh = collection(vec![record("a", 3, false, "new")], 3);
    assert_eq!(
        client.settle(Snapshot::Fresh(fresh), vec![7], Some(cached)),
        Err(ClientError::Signature(SignatureError::MissingSignature))
    );
    assert_eq!(client.cached(), Ok(None));
}

#[test]
fn settle_falls_back_to_cache_on_rejection() {
    let mut storage = MemoryStorage::new();
    storage.store("main/cfg", vec![1]).unwrap();
    let mut client = Client::with_defaults("cfg".to_string(), storage, Rejecting).fall_back_on_rejection(true);
    let cached = collection(vec![record("a", 1, false, "old")], 1);
    let fresh = collection(vec![record("a", 3, false, "new")], 3);
    assert_eq!(
        client.settle(Snapshot::Fresh(fresh.clone()), vec![7], Some(cached.clone())),
        Ok(cached)
    );
    assert_eq!(client.cached(), Ok(Some(vec![1])));
    assert_eq!(
        client.settle(Snapshot::Fresh(fresh), vec![7], None),
        Err(ClientError::Signature(SignatureError::MissingSignature))
    );
}

#[test]
fn settle_keeps_the_cache_key() {
    let mut client = Client::with_defaults("cfg".to_string(), MemoryStorage::new(), DefaultVerifier::new());
    let fresh = collection(vec![], 2);
    client.settle(Snapshot::Fresh(fresh), vec![4], None).unwrap();
    assert_eq!(client.cache_key(), "main/cfg");
    assert_eq!(client.storage().retrieve("main/cfg"), Ok(Some(vec![4])));
}
