use vstd::prelude::*;

verus! {

/// One data item of a collection, keyed by `id`.
#[derive(Debug, Clone, PartialEq, Eq)]
pub struct Record {
    pub id: String,
    pub last_modified: u64,
    /// A tombstone: the record was removed from the dataset.
    pub deleted: bool,
    /// The record's other fields, in their serialized form.
    pub data: String,
}

/// A snapshot of the records of one (bucket, collection) pair. Its records
/// are meant to have distinct ids (see `Collection::wf`).
#[derive(Debug, Clone, PartialEq, Eq)]
pub struct Collection {
    pub bucket_name: String,
    pub collection_name: String,
    pub records: Vec<Record>,
    /// The cursor of the last server state applied.
    pub timestamp: u64,
    /// The attestation that covers the records and the timestamp, if any.
    pub signature: Option<String>,
}

impl Record {
    /// A copy of this record.
    pub fn duplicate(&self) -> (r: Record)
        ensures
            r == *self,
    {
        Record {
            id: self.id.clone(),
            last_modified: self.last_modified,
            deleted: self.deleted,
            data: self.data.clone(),
        }
    }
}

/// The position of the last record of `rs` with id `id`, or -1 where none has it.
pub open spec fn index_of(rs: Seq<Record>, id: Seq<char>) -> int
    decreases rs.len(),
{
    if rs.len() == 0 {
        -1
    } else if rs.last().id@ == id {
        rs.len() - 1
    } else {
        index_of(rs.drop_last(), id)
    }
}

/// The records `rs` after one change `c`: a record with the same id is
/// replaced, or removed where `c` is a tombstone, but only if `c` is newer;
/// a change to an unknown id is added, unless it is a tombstone.
pub open spec fn apply_change(rs: Seq<Record>, c: Record) -> Seq<Record> {
    let i = index_of(rs, c.id@);
    if i >= 0 {
        if c.last_modified > rs[i].last_modified {
            if c.deleted {
                rs.remove(i)
            } else {
                rs.update(i, c)
            }
        } else {
            rs
        }
    } else if c.deleted {
        rs
    } else {
        rs.push(c)
    }
}

/// The records `rs` after the changes `cs`, applied in order.
pub open spec fn apply_changes(rs: Seq<Record>, cs: Seq<Record>) -> Seq<Record>
    decreases cs.len(),
{
    if cs.len() == 0 {
        rs
    } else {
        apply_change(apply_changes(rs, cs.drop_last()), cs.last())
    }
}

/// No two records of `rs` share an id.
pub open spec fn ids_unique(rs: Seq<Record>) -> bool {
    forall|a: int, b: int| 0 <= a < b < rs.len() ==> #[trigger] rs[a].id@ != #[trigger] rs[b].id@
}

proof fn lemma_index_of_bounds(rs: Seq<Record>, id: Seq<char>)
    ensures
        -1 <= index_of(rs, id) < rs.len(),
        index_of(rs, id) >= 0 ==> rs[index_of(rs, id)].id@ == id,
        index_of(rs, id) == -1 ==> forall|j: int| 0 <= j < rs.len() ==> #[trigger] rs[j].id@ != id,
    decreases rs.len(),
{
    if rs.len() > 0 {
        lemma_index_of_bounds(rs.drop_last(), id);
        if index_of(rs, id) == -1 {
            assert forall|j: int| 0 <= j < rs.len() implies #[trigger] rs[j].id@ != id by {
                if j < rs.len() - 1 {
                    assert(rs.drop_last()[j] == rs[j]);
                }
            }
        }
    }
}

/// One change keeps the ids of the records distinct.
proof fn lemma_apply_change_unique(rs: Seq<Record>, c: Record)
    requires
        ids_unique(rs),
    ensures
        ids_unique(apply_change(rs, c)),
{
    lemma_index_of_bounds(rs, c.id@);
    let i = index_of(rs, c.id@);
    let out = apply_change(rs, c);
    if i >= 0 && c.last_modified > rs[i].last_modified && c.deleted {
        assert forall|a: int, b: int| 0 <= a < b < out.len() implies #[trigger] out[a].id@ != #[trigger] out[b].id@ by {
            let a0 = if a < i { a } else { a + 1 };
            let b0 = if b < i { b } else { b + 1 };
            assert(out[a] == rs[a0] && out[b] == rs[b0]);
        }
    }
}

/// Every record of `rs` that is not a tombstone was last modified at or before `t`.
pub open spec fn modified_by(rs: Seq<Record>, t: u64) -> bool {
    forall|i: int| 0 <= i < rs.len() && !(#[trigger] rs[i]).deleted ==> rs[i].last_modified <= t
}

/// One change that is a tombstone or no later than `t` keeps the records
/// modified by `t`.
proof fn lemma_apply_change_modified_by(rs: Seq<Record>, c: Record, t: u64)
    requires
        modified_by(rs, t),
        c.deleted || c.last_modified <= t,
    ensures
        modified_by(apply_change(rs, c), t),
{
    lemma_index_of_bounds(rs, c.id@);
    let i = index_of(rs, c.id@);
    let out = apply_change(rs, c);
    if i >= 0 && c.last_modified > rs[i].last_modified && c.deleted {
        assert forall|k: int| 0 <= k < out.len() && !(#[trigger] out[k]).deleted implies out[k].last_modified <= t by {
            let k0 = if k < i { k } else { k + 1 };
            assert(out[k] == rs[k0]);
        }
    } else if i < 0 && !c.deleted {
        assert forall|k: int| 0 <= k < out.len() && !(#[trigger] out[k]).deleted implies out[k].last_modified <= t by {
            if k < rs.len() {
                assert(out[k] == rs[k]);
            }
        }
    }
}

/// Changes no later than `t`, but for tombstones, keep the records modified by `t`.
pub proof fn lemma_apply_changes_modified_by(rs: Seq<Record>, cs: Seq<Record>, t: u64)
    requires
        modified_by(rs, t),
        modified_by(cs, t),
    ensures
        modified_by(apply_changes(rs, cs), t),
    decreases cs.len(),
{
    if cs.len() > 0 {
        assert(modified_by(cs.drop_last(), t)) by {
            assert forall|k: int| 0 <= k < cs.drop_last().len() && !(#[trigger] cs.drop_last()[k]).deleted
                implies cs.drop_last()[k].last_modified <= t by {
                assert(cs.drop_last()[k] == cs[k]);
            }
        }
        lemma_apply_changes_modified_by(rs, cs.drop_last(), t);
        assert(!cs[cs.len() - 1].deleted ==> cs[cs.len() - 1].last_modified <= t);
        lemma_apply_change_modified_by(apply_changes(rs, cs.drop_last()), cs.last(), t);
    }
}

/// Changes applied to records with distinct ids leave the ids distinct.
pub proof fn lemma_apply_changes_unique(rs: Seq<Record>, cs: Seq<Record>)
    requires
        ids_unique(rs),
    ensures
        ids_unique(apply_changes(rs, cs)),
    decreases cs.len(),
{
    if cs.len() > 0 {
        lemma_apply_changes_unique(rs, cs.drop_last());
        lemma_apply_change_unique(apply_changes(rs, cs.drop_last()), cs.last());
    }
}

/// The position of the last record of `rs` with id `id`.
fn find_record(rs: &Vec<Record>, id: &String) -> (r: Option<usize>)
    ensures
        match r {
            Some(i) => i as int == index_of(rs@, id@),
            None => index_of(rs@, id@) == -1,
        },
{
    let mut i: usize = rs.len();
    assert(rs@.take(i as int) =~= rs@);
    while i > 0
        invariant
            i <= rs@.len(),
            index_of(rs@.take(i as int), id@) == index_of(rs@, id@),
        decreases i,
    {
        assert(rs@.take(i as int).drop_last() =~= rs@.take(i - 1));
        if rs[i - 1].id == *id {
            return Some(i - 1);
        }
        i = i - 1;
    }
    None
}

impl Collection {
    /// Well-formed: no two records share an id, and the timestamp is no
    /// earlier than the last modification of any record that is not a tombstone.
    pub open spec fn wf(&self) -> bool {
        &&& ids_unique(self.records@)
        &&& modified_by(self.records@, self.timestamp)
    }

    /// The candidate that results from applying `changes`, in order, to this
    /// collection, with the server's new cursor and signature. The timestamp
    /// never moves back.
    pub fn merge(&self, changes: &Vec<Record>, cursor: u64, signature: Option<String>) -> (r: Collection)
        ensures
            r.bucket_name == self.bucket_name,
            r.collection_name == self.collection_name,
            r.records@ == apply_changes(self.records@, changes@),
            r.timestamp == if cursor > self.timestamp { cursor } else { self.timestamp },
            r.timestamp >= self.timestamp,
            r.signature == signature,
            self.wf() && modified_by(changes@, r.timestamp) ==> r.wf(),
    {
        let mut records: Vec<Record> = Vec::new();
        let mut k: usize = 0;
        while k < self.records.len()
            invariant
                k <= self.records@.len(),
                records@ == self.records@.take(k as int),
            decreases self.records@.len() - k,
        {
            records.push(self.records[k].duplicate());
            assert(records@ =~= self.records@.take(k + 1));
            k = k + 1;
        }
        assert(self.records@.take(k as int) =~= self.records@);
        assert(changes@.take(0) =~= Seq::<Record>::empty());
        let mut j: usize = 0;
        while j < changes.len()
            invariant
                j <= changes@.len(),
                records@ == apply_changes(self.records@, changes@.take(j as int)),
            decreases changes@.len() - j,
        {
            let c = changes[j].duplicate();
            proof {
                lemma_index_of_bounds(records@, c.id@);
                assert(changes@.take(j + 1).drop_last() =~= changes@.take(j as int));
            }
            let ghost before = records@;
            match find_record(&records, &c.id) {
                Some(i) => {
                    if c.last_modified > records[i].last_modified {
                        records.remove(i);
                        if !c.deleted {
                            records.insert(i, c);
                            assert(records@ =~= before.update(i as int, changes@[j as int]));
                        }
                    }
                },
                None => {
                    if !c.deleted {
                        records.push(c);
                    }
                },
            }
            assert(records@ == apply_change(before, changes@.take(j + 1).last()));
            j = j + 1;
        }
        assert(changes@.take(j as int) =~= changes@);
        proof {
            if ids_unique(self.records@) {
                lemma_apply_changes_unique(self.records@, changes@);
            }
            let t: u64 = if cursor > self.timestamp { cursor } else { self.timestamp };
            if modified_by(self.records@, self.timestamp) && modified_by(changes@, t) {
                lemma_apply_changes_modified_by(self.records@, changes@, t);
            }
        }
        let timestamp = if cursor > self.timestamp { cursor } else { self.timestamp };
        Collection {
            bucket_name: self.bucket_name.clone(),
            collection_name: self.collection_name.clone(),
            records,
            timestamp,
            signature,
        }
    }
}

/// The reason a collection was not attested.
#[derive(Debug, PartialEq, Eq)]
pub enum SignatureError {
    MissingSignature,
    VerificationError { name: String },
}

/// A policy that attests that a collection is authentic.
pub trait Verification {
    /// Whether this policy attests `collection`.
    spec fn accepts(&self, collection: &Collection) -> bool;

    /// Succeeds exactly when the policy attests `collection`.
    fn verify(&self, collection: &Collection) -> (r: Result<(), SignatureError>)
        ensures
            r is Ok <==> self.accepts(collection),
    ;
}

/// The pass-through policy: it attests every collection. It checks no
/// signature, and is meant for use where no signature backend is configured.
pub struct DefaultVerifier {}

impl DefaultVerifier {
    pub fn new() -> (r: DefaultVerifier) {
        DefaultVerifier {}
    }
}

impl Verification for DefaultVerifier {
    open spec fn accepts(&self, collection: &Collection) -> bool {
        true
    }

    fn verify(&self, _collection: &Collection) -> (r: Result<(), SignatureError>) {
        Ok(())
    }
}

/// The default policy attests every collection, whatever it holds.
pub proof fn default_verifier_is_permissive(v: DefaultVerifier, collection: Collection)
    ensures
        v.accepts(&collection),
{
}

} // verus!
