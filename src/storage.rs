use vstd::prelude::*;

verus! {

/// Error raised when a value could not be persisted.
#[derive(Debug, PartialEq, Eq)]
pub enum StorageError {
    Error { name: String },
}

/// Durable persistence of byte values under string keys.
pub trait Storage: Sized {
    /// The value last stored under `key`, if any.
    spec fn stored(&self, key: Seq<char>) -> Option<Seq<u8>>;

    /// Whether this store cannot fail: every write succeeds and every stored
    /// value can be read back.
    spec fn reliable(&self) -> bool;

    /// Persists `value` under `key`, replacing any prior value. On failure
    /// nothing is changed. A reliable store always succeeds.
    fn store(&mut self, key: &str, value: Vec<u8>) -> (r: Result<(), StorageError>)
        ensures
            old(self).reliable() ==> r is Ok && final(self).reliable(),
            r is Ok ==> forall|k: Seq<char>| #[trigger] final(self).stored(k)
                == if k == key@ { Some(value@) } else { old(self).stored(k) },
            r is Err ==> forall|k: Seq<char>| #[trigger] final(self).stored(k) == old(self).stored(k),
    ;

    /// The value stored under `key`. A key never stored gives `Ok(None)`; a
    /// value that cannot currently be read may also give `Ok(None)`, except
    /// in a reliable store.
    fn retrieve(&self, key: &str) -> (r: Result<Option<Vec<u8>>, StorageError>)
        ensures
            self.reliable() ==> (r matches Ok(o) && (self.stored(key@) is Some ==> o is Some)),
            r matches Ok(Some(v)) ==> self.stored(key@) == Some(v@),
            self.stored(key@) is None ==> r matches Ok(None),
    ;
}

/// `after` holds `value` under `key` and whatever `before` held under every
/// other key: what a successful `store` of `value` under `key` leaves.
pub open spec fn updated<S: Storage>(before: S, after: S, key: Seq<char>, value: Seq<u8>) -> bool {
    forall|k: Seq<char>| #[trigger] after.stored(k) == if k == key { Some(value) } else { before.stored(k) }
}

/// A value stored under a key is what the key then gives back.
pub proof fn round_trip<S: Storage>(before: S, after: S, key: Seq<char>, value: Seq<u8>)
    requires
        updated(before, after, key, value),
    ensures
        after.stored(key) == Some(value),
{
}

/// Of two values stored in turn under one key, the key gives back the second.
pub proof fn overwrite<S: Storage>(s0: S, s1: S, s2: S, key: Seq<char>, v1: Seq<u8>, v2: Seq<u8>)
    requires
        updated(s0, s1, key, v1),
        updated(s1, s2, key, v2),
    ensures
        s2.stored(key) == Some(v2),
{
}

/// The value that the last entry of `entries` with key `key` holds.
pub open spec fn latest(entries: Seq<(Seq<char>, Seq<u8>)>, key: Seq<char>) -> Option<Seq<u8>>
    decreases entries.len(),
{
    if entries.len() == 0 {
        None
    } else if entries.last().0 == key {
        Some(entries.last().1)
    } else {
        latest(entries.drop_last(), key)
    }
}

/// A store held in memory, for use where nothing needs to outlive the process.
/// Each write is appended; the last write under a key is the one read back.
pub struct MemoryStorage {
    entries: Vec<(String, Vec<u8>)>,
}

impl MemoryStorage {
    /// The writes made so far, oldest first.
    pub closed spec fn log(&self) -> Seq<(Seq<char>, Seq<u8>)> {
        self.entries@.map_values(|e: (String, Vec<u8>)| (e.0@, e.1@))
    }

    pub fn new() -> (r: MemoryStorage)
        ensures
            forall|k: Seq<char>| #[trigger] r.stored(k) is None,
    {
        let r = MemoryStorage { entries: Vec::new() };
        assert(r.log() =~= Seq::empty());
        r
    }
}

impl Storage for MemoryStorage {
    open spec fn stored(&self, key: Seq<char>) -> Option<Seq<u8>> {
        latest(self.log(), key)
    }

    open spec fn reliable(&self) -> bool {
        true
    }

    fn store(&mut self, key: &str, value: Vec<u8>) -> (r: Result<(), StorageError>) {
        let ghost before = self.log();
        self.entries.push((String::from_str(key), value));
        assert(self.log().drop_last() =~= before);
        Ok(())
    }

    fn retrieve(&self, key: &str) -> (r: Result<Option<Vec<u8>>, StorageError>) {
        let wanted = String::from_str(key);
        let mut i: usize = self.entries.len();
        assert(self.log().take(i as int) =~= self.log());
        while i > 0
            invariant
                i <= self.entries@.len(),
                wanted@ == key@,
                latest(self.log().take(i as int), key@) == latest(self.log(), key@),
            decreases i,
        {
            assert(self.log().take(i as int).drop_last() =~= self.log().take(i - 1));
            if self.entries[i - 1].0 == wanted {
                let v = self.entries[i - 1].1.clone();
                return Ok(Some(v));
            }
            i = i - 1;
        }
        Ok(None)
    }
}

/// Relies on std::path::MAIN_SEPARATOR: the platform's path separator,
/// documented as `/` on Unix and `\` on Windows.
#[verifier::external_body]
fn main_separator() -> (r: char)
    ensures
        r == '/' || r == '\\',
{
    std::path::MAIN_SEPARATOR
}

/// The file name stem for `key`: every separator `sep` and every `.` becomes `-`.
pub open spec fn slug(key: Seq<char>, sep: char) -> Seq<char> {
    Seq::new(key.len(), |i: int| if key[i] == sep || key[i] == '.' { '-' } else { key[i] })
}

/// Where the value of `key` is kept under `folder`: the slug with `.bin`
/// appended, joined to the folder with one separator.
pub open spec fn path_for(folder: Seq<char>, key: Seq<char>, sep: char) -> Seq<char> {
    let name = slug(key, sep) + seq!['.', 'b', 'i', 'n'];
    if folder.len() == 0 {
        name
    } else if folder.last() == sep {
        folder + name
    } else {
        folder + seq![sep] + name
    }
}

/// The file name of a key holds no separator and no dot before its extension,
/// so no key can leave the folder. Two keys share one file exactly when they
/// agree but for separators, dots and dashes.
pub proof fn sanitized_name(folder: Seq<char>, key: Seq<char>, other: Seq<char>, sep: char)
    requires
        sep == '/' || sep == '\\',
    ensures
        slug(key, sep).len() == key.len(),
        forall|i: int| 0 <= i < key.len() ==> #[trigger] slug(key, sep)[i] != sep && slug(key, sep)[i] != '.',
        slug(key, sep) == slug(other, sep) <==> path_for(folder, key, sep) == path_for(folder, other, sep),
{
    let a = path_for(folder, key, sep);
    let b = path_for(folder, other, sep);
    if a == b {
        let ext = seq!['.', 'b', 'i', 'n'];
        let p = if folder.len() == 0 {
            Seq::<char>::empty()
        } else if folder.last() == sep {
            folder
        } else {
            folder + seq![sep]
        };
        assert(a =~= p + (slug(key, sep) + ext));
        assert(b =~= p + (slug(other, sep) + ext));
        assert(slug(key, sep) =~= a.subrange(p.len() as int, a.len() - 4));
        assert(slug(other, sep) =~= b.subrange(p.len() as int, b.len() - 4));
    }
}

/// A store that keeps each value in a file of its own under a folder.
///
/// Distinct keys that differ only in separators and dots (`a/b`, `a.b`, `a-b`)
/// share one file: the mapping prevents path traversal, not collisions.
pub struct FileStorage {
    folder: String,
    separator: char,
}

impl FileStorage {
    /// The separator is one that a platform uses.
    #[verifier::type_invariant]
    spec fn separator_known(&self) -> bool {
        self.separator == '/' || self.separator == '\\'
    }

    /// The folder under which the files are kept.
    pub closed spec fn location(&self) -> Seq<char> {
        self.folder@
    }

    /// The platform's path separator, fixed when the store is made.
    pub closed spec fn separator(&self) -> char {
        self.separator
    }

    pub fn new(folder: String) -> (r: FileStorage)
        ensures
            r.location() == folder@,
            r.separator() == '/' || r.separator() == '\\',
    {
        FileStorage { folder, separator: main_separator() }
    }

    pub fn folder(&self) -> (r: &str)
        ensures
            r@ == self.location(),
    {
        self.folder.as_str()
    }

    /// The path of the file that holds the value of `key`.
    pub fn _pathfor(&self, key: &str) -> (r: String)
        ensures
            r@ == path_for(self.location(), key@, self.separator()),
    {
        let sep = self.separator;
        proof {
            use_type_invariant(self);
        }
        let n = key.unicode_len();
        let mut name = String::new();
        let mut i: usize = 0;
        while i < n
            invariant
                n == key@.len(),
                i <= n,
                name@ == slug(key@, sep).take(i as int),
            decreases n - i,
        {
            let c = key.get_char(i);
            if c == sep || c == '.' {
                name.append("-");
                proof {
                    reveal_strlit("-");
                }
            } else {
                name.append(key.substring_char(i, i + 1));
            }
            assert(name@ =~= slug(key@, sep).take(i + 1));
            i = i + 1;
        }
        assert(name@ =~= slug(key@, sep));
        name.append(".bin");
        proof {
            reveal_strlit(".bin");
        }
        let folder = self.folder.as_str();
        let flen = folder.unicode_len();
        let mut r = String::from_str(folder);
        if flen > 0 && folder.get_char(flen - 1) != sep {
            if sep == '/' {
                r.append("/");
                proof {
                    reveal_strlit("/");
                }
            } else {
                r.append("\\");
                proof {
                    reveal_strlit("\\");
                }
            }
        }
        r.append(name.as_str());
        assert(r@ =~= path_for(self.folder@, key@, sep));
        r
    }

    /// The outcome of a write: a failure to open, write or flush the file,
    /// given as its description in `written`, is reported under that description.
    pub fn store_outcome(written: Result<(), String>) -> (r: Result<(), StorageError>)
        ensures
            written is Ok <==> r is Ok,
            written matches Err(m) ==> r == Err::<(), StorageError>(StorageError::Error { name: m }),
    {
        match written {
            Ok(()) => Ok(()),
            Err(m) => Err(StorageError::Error { name: m }),
        }
    }

    /// The outcome of a read: the bytes read, or no value when the file could
    /// not be opened or read. A failed read is never an error.
    pub fn retrieve_outcome(read: Result<Vec<u8>, String>) -> (r: Result<Option<Vec<u8>>, StorageError>)
        ensures
            read matches Ok(b) ==> r == Ok::<Option<Vec<u8>>, StorageError>(Some(b)),
            read is Err ==> r == Ok::<Option<Vec<u8>>, StorageError>(None),
    {
        match read {
            Ok(b) => Ok(Some(b)),
            Err(_) => Ok(None),
        }
    }
}

} // verus!
