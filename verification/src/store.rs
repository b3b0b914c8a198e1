//! The library store: an ordered map from byte keys to byte values, kept by
//! an embedded `sled` database. Everything the history, the playlists and the
//! track pages persist goes through [`Store`].
//!
//! `sled` itself is not verified. What this module takes on trust about it is
//! written on the private functions below; the public methods of [`Store`]
//! are proved from those statements.

use crate::keys::{bytes_lt, lemma_bytes_lt_irreflexive, lemma_bytes_lt_transitive};
use vstd::prelude::*;

verus! {

#[verifier::external_type_specification]
#[verifier::external_body]
pub struct ExDb(sled::Db);

#[verifier::external_type_specification]
#[verifier::external_body]
pub struct ExDbError(sled::Error);

#[verifier::external_type_specification]
#[verifier::external_body]
pub struct ExPathBuf(std::path::PathBuf);

/// The page cache that a store gets unless it is opened with another: one
/// gibibyte.
pub const DEFAULT_CACHE_BYTES: u64 = 1024 * 1024 * 1024;

/// The smallest page cache that a store can have.
pub const MIN_CACHE_BYTES: u64 = 256;

/// The page cache that a store gets when `cache_bytes` are asked for: as
/// many, and [`MIN_CACHE_BYTES`] at least.
pub open spec fn cache_floor_of(cache_bytes: u64) -> u64 {
    if cache_bytes < MIN_CACHE_BYTES {
        MIN_CACHE_BYTES
    } else {
        cache_bytes
    }
}

/// The page cache that a store gets when `cache_bytes` are asked for.
pub fn cache_floor(cache_bytes: u64) -> (granted: u64)
    ensures
        granted == cache_floor_of(cache_bytes),
{
    if cache_bytes < MIN_CACHE_BYTES {
        MIN_CACHE_BYTES
    } else {
        cache_bytes
    }
}

/// The key-value pairs that a database handle holds in its default tree.
pub uninterp spec fn store_map(db: sled::Db) -> Map<Seq<u8>, Seq<u8>>;

/// The contents of an empty store.
pub open spec fn no_pairs() -> Map<Seq<u8>, Seq<u8>> {
    Map::empty()
}

/// `pairs` lists exactly the pairs of `map`, each once, by ascending key.
pub open spec fn is_scan_of(pairs: Seq<(Seq<u8>, Seq<u8>)>, map: Map<Seq<u8>, Seq<u8>>) -> bool {
    &&& forall|i: int|
        0 <= i < pairs.len() ==> map.contains_key(#[trigger] pairs[i].0) && map[pairs[i].0]
            == pairs[i].1
    &&& forall|k: Seq<u8>| #[trigger]
        map.contains_key(k) ==> exists|i: int| 0 <= i < pairs.len() && #[trigger] pairs[i].0 == k
    &&& forall|i: int, j: int|
        0 <= i < j < pairs.len() ==> bytes_lt(#[trigger] pairs[i].0, #[trigger] pairs[j].0)
}

/// The pairs of `map` in key order; meaningful for every finite map.
pub closed spec fn scan_of(map: Map<Seq<u8>, Seq<u8>>) -> Seq<(Seq<u8>, Seq<u8>)> {
    choose|pairs: Seq<(Seq<u8>, Seq<u8>)>| is_scan_of(pairs, map)
}

/// A map has at most one scan.
pub proof fn lemma_scan_unique(
    a: Seq<(Seq<u8>, Seq<u8>)>,
    b: Seq<(Seq<u8>, Seq<u8>)>,
    map: Map<Seq<u8>, Seq<u8>>,
)
    requires
        is_scan_of(a, map),
        is_scan_of(b, map),
    ensures
        a == b,
{
    lemma_scan_prefix(a, b, map, a.len() as int);
    lemma_scan_prefix(b, a, map, b.len() as int);
    assert(a =~= b);
}

/// A scan of a map is the scan of that map.
pub proof fn lemma_scan_of(pairs: Seq<(Seq<u8>, Seq<u8>)>, map: Map<Seq<u8>, Seq<u8>>)
    requires
        is_scan_of(pairs, map),
    ensures
        scan_of(map) == pairs,
        is_scan_of(scan_of(map), map),
{
    lemma_scan_unique(pairs, scan_of(map), map);
}

/// The key of a stored pair.
pub open spec fn pair_key() -> spec_fn((Seq<u8>, Seq<u8>)) -> Seq<u8> {
    |pair: (Seq<u8>, Seq<u8>)| pair.0
}

/// A map that has a scan is finite, and has as many keys as the scan has
/// pairs.
pub proof fn lemma_scan_counts(pairs: Seq<(Seq<u8>, Seq<u8>)>, map: Map<Seq<u8>, Seq<u8>>)
    requires
        is_scan_of(pairs, map),
    ensures
        map.dom().finite(),
        map.dom().len() == pairs.len(),
{
    let keys = pairs.map_values(pair_key());
    assert forall|i: int, j: int| 0 <= i < keys.len() && 0 <= j < keys.len() && i != j implies keys[i]
        != keys[j] by {
        lemma_bytes_lt_irreflexive(keys[i]);
        if i < j {
            assert(bytes_lt(pairs[i].0, pairs[j].0));
        } else {
            assert(bytes_lt(pairs[j].0, pairs[i].0));
        }
    }
    assert(keys.no_duplicates());
    assert forall|k: Seq<u8>| keys.to_set().contains(k) <==> map.dom().contains(k) by {
        if keys.to_set().contains(k) {
            let i = choose|i: int| 0 <= i < keys.len() && keys[i] == k;
            assert(map.contains_key(pairs[i].0));
        }
        if map.contains_key(k) {
            let i = choose|i: int| 0 <= i < pairs.len() && #[trigger] pairs[i].0 == k;
            assert(keys[i] == k);
        }
    }
    assert(keys.to_set() =~= map.dom());
    vstd::seq_lib::seq_to_set_is_finite(keys);
    keys.unique_seq_to_set();
}

/// Two scans of one map agree on their first `n` pairs.
proof fn lemma_scan_prefix(
    a: Seq<(Seq<u8>, Seq<u8>)>,
    b: Seq<(Seq<u8>, Seq<u8>)>,
    map: Map<Seq<u8>, Seq<u8>>,
    n: int,
)
    requires
        is_scan_of(a, map),
        is_scan_of(b, map),
        0 <= n <= a.len(),
    ensures
        n <= b.len(),
        forall|i: int| 0 <= i < n ==> a[i] == b[i],
    decreases n,
{
    if n > 0 {
        lemma_scan_prefix(a, b, map, n - 1);
        let k = a[n - 1].0;
        assert(map.contains_key(k));
        let j = choose|j: int| 0 <= j < b.len() && #[trigger] b[j].0 == k;
        lemma_bytes_lt_irreflexive(k);
        if j < n - 1 {
            // b[j] == a[j] sorts strictly before a[n - 1]
            assert(bytes_lt(a[j].0, a[n - 1].0));
        } else if j > n - 1 {
            // b[n - 1] sorts before b[j] == k, yet must appear in a at or after n - 1
            let kb = b[n - 1].0;
            assert(bytes_lt(kb, b[j].0));
            assert(map.contains_key(kb));
            let i = choose|i: int| 0 <= i < a.len() && #[trigger] a[i].0 == kb;
            lemma_bytes_lt_irreflexive(kb);
            if i < n - 1 {
                assert(bytes_lt(b[i].0, b[n - 1].0));
            } else if i > n - 1 {
                assert(bytes_lt(a[n - 1].0, a[i].0));
                lemma_bytes_lt_transitive(kb, k, kb);
            }
        }
        assert(b[n - 1].0 == k);
        assert(a[n - 1] == b[n - 1]);
    }
}

/// `dirs::data_dir`: the user's data directory, where the platform names
/// one. Nothing is claimed of the answer: it depends on the environment.
#[verifier::external_body]
fn data_dir() -> Option<std::path::PathBuf> {
    dirs::data_dir()
}

/// `PathBuf::from`: the path that `text` spells.
#[verifier::external_body]
fn path_from(text: &str) -> std::path::PathBuf {
    std::path::PathBuf::from(text)
}

/// `PathBuf::push`: extends `path` by `part`.
#[verifier::external_body]
fn path_push(path: &mut std::path::PathBuf, part: &str) {
    path.push(part)
}

/// `sled::Config::open` after `path`, `cache_capacity`, `use_compression`
/// and `temporary`: opens, or creates, the database at `path`, with the
/// page cache limited to `cache_bytes`; if `compressed`, what is written is
/// compressed; if `temporary`, the files are removed again when the handle
/// is dropped. sled's cache refuses, by a panic, a capacity below 256
/// bytes: the `requires` leaves those out. sled refuses, by an error, to
/// open a database with another compression than it was made with. Nothing
/// is claimed of what the database holds: that is whatever an earlier run
/// left on disk. Of a compressed database sled expects that what is on disk
/// decompresses, and gives up where a damaged file does not.
#[verifier::external_body]
fn open_at(path: std::path::PathBuf, cache_bytes: u64, compressed: bool, temporary: bool) -> Result<
    sled::Db,
    sled::Error,
>
    requires
        cache_bytes >= MIN_CACHE_BYTES,
{
    sled::Config::new().path(path).cache_capacity(cache_bytes).use_compression(
        compressed,
    ).temporary(temporary).open()
}

/// `sled::Config::open` after `temporary(true)` alone: a database in a
/// scratch location of sled's choosing, removed again when the handle is
/// dropped.
#[verifier::external_body]
fn open_temporary() -> Result<sled::Db, sled::Error> {
    sled::Config::new().temporary(true).open()
}

/// `sled::Tree::get`: on success, the value filed under `key`, or `None`
/// when the key is absent.
#[verifier::external_body]
fn db_get(db: &sled::Db, key: &[u8]) -> (r: Result<Option<Vec<u8>>, sled::Error>)
    ensures
        r matches Ok(found) ==> (match found {
            Some(value) => store_map(*db).contains_key(key@) && store_map(*db)[key@] == value@,
            None => !store_map(*db).contains_key(key@),
        }),
{
    match db.get(key) {
        Ok(found) => Ok(found.map(|value| value.to_vec())),
        Err(e) => Err(e),
    }
}

/// `sled::Tree::insert`: on success, `key` maps to `value` and no other key
/// has changed. sled documents its single-key operations as fully atomic,
/// and its source fails either before the new page is swapped in or after:
/// after a failure the pair has been filed as on success, or nothing has
/// changed.
#[verifier::external_body]
fn db_insert(db: &mut sled::Db, key: &[u8], value: Vec<u8>) -> (r: Result<(), sled::Error>)
    ensures
        r is Ok ==> store_map(*final(db)) == store_map(*old(db)).insert(key@, value@),
        r is Err ==> store_map(*final(db)) == store_map(*old(db)) || store_map(*final(db))
            == store_map(*old(db)).insert(key@, value@),
{
    match db.insert(key, value) {
        Ok(_) => Ok(()),
        Err(e) => Err(e),
    }
}

/// `sled::Tree::remove`: on success, `key` is absent and no other key has
/// changed. A removal is atomic as a write is: after a failure the key has
/// been removed as on success, or nothing has changed.
#[verifier::external_body]
fn db_remove(db: &mut sled::Db, key: &[u8]) -> (r: Result<(), sled::Error>)
    ensures
        r is Ok ==> store_map(*final(db)) == store_map(*old(db)).remove(key@),
        r is Err ==> store_map(*final(db)) == store_map(*old(db)) || store_map(*final(db))
            == store_map(*old(db)).remove(key@),
{
    match db.remove(key) {
        Ok(_) => Ok(()),
        Err(e) => Err(e),
    }
}

/// `sled::Tree::iter`, walked to its end: on success, every pair of the
/// tree, each once, by ascending key. sled orders keys lexicographically by
/// their bytes. The walk stops at the first item that the iterator reports
/// as failed.
#[verifier::external_body]
fn db_scan(db: &sled::Db) -> (r: Result<Vec<(Vec<u8>, Vec<u8>)>, sled::Error>)
    ensures
        r matches Ok(pairs) ==> is_scan_of(pairs.deep_view(), store_map(*db)),
{
    db.iter().map(|item| item.map(|(key, value)| (key.to_vec(), value.to_vec()))).collect()
}

/// `sled::Tree::clear`: on success, the tree is empty. sled documents the
/// call as not atomic: it removes the keys one by one and stops at the first
/// failure, so that after a failure some pairs may be gone, and what is left
/// is as it was.
#[verifier::external_body]
fn db_clear(db: &mut sled::Db) -> (r: Result<(), sled::Error>)
    ensures
        r is Ok ==> store_map(*final(db)) == no_pairs(),
        r is Err ==> store_map(*final(db)).submap_of(store_map(*old(db))),
{
    db.clear()
}

/// `sled::Tree::flush`: writes what is pending to disk; the number of bytes
/// written is dropped.
#[verifier::external_body]
fn db_flush(db: &sled::Db) -> Result<(), sled::Error> {
    match db.flush() {
        Ok(_) => Ok(()),
        Err(e) => Err(e),
    }
}

/// An ordered map from byte keys to byte values, durable unless opened as
/// temporary.
///
/// A `Store` is the only handle on its database: the contracts below speak
/// of its contents as of a value, which holds as long as no copy of the
/// underlying handle is written through elsewhere.
pub struct Store {
    db: sled::Db,
}

impl View for Store {
    type V = Map<Seq<u8>, Seq<u8>>;

    closed spec fn view(&self) -> Map<Seq<u8>, Seq<u8>> {
        store_map(self.db)
    }
}

impl Store {
    /// Opens the store `name` in the folder `folder` of the user's data
    /// directory, or of `fallback` where the platform names no such
    /// directory. The page cache is limited to `cache_bytes`, or to
    /// [`MIN_CACHE_BYTES`] where that is more; if `compressed`, what is
    /// written is compressed; if `temporary`, the store's files are removed
    /// when it is dropped. What an earlier run left at that place is there
    /// when the store opens. A store opens only with the compression that
    /// it was made with. A compressed store whose files were damaged is
    /// beyond what the functions of a [`Store`] answer for: sled gives up
    /// on data that does not decompress.
    pub fn open_in(
        fallback: &str,
        folder: &str,
        name: &str,
        cache_bytes: u64,
        compressed: bool,
        temporary: bool,
    ) -> Result<Store, sled::Error> {
        let mut path = match data_dir() {
            Some(dir) => dir,
            None => path_from(fallback),
        };
        path_push(&mut path, folder);
        path_push(&mut path, name);
        match open_at(path, cache_floor(cache_bytes), compressed, temporary) {
            Ok(db) => Ok(Store { db }),
            Err(e) => Err(e),
        }
    }

    /// Opens the durable store `name`, with a page cache of
    /// [`DEFAULT_CACHE_BYTES`].
    pub fn open(fallback: &str, folder: &str, name: &str) -> Result<Store, sled::Error> {
        Store::open_in(fallback, folder, name, DEFAULT_CACHE_BYTES, false, false)
    }

    /// Opens the durable store `name`, with a page cache of `cache_bytes`,
    /// or of [`MIN_CACHE_BYTES`] where that is more.
    pub fn open_cached(fallback: &str, folder: &str, name: &str, cache_bytes: u64) -> Result<
        Store,
        sled::Error,
    > {
        Store::open_in(fallback, folder, name, cache_bytes, false, false)
    }

    /// Opens the store `name` for one session: its files are removed when
    /// it is dropped.
    pub fn open_scratch(fallback: &str, folder: &str, name: &str) -> Result<Store, sled::Error> {
        Store::open_in(fallback, folder, name, DEFAULT_CACHE_BYTES, false, true)
    }

    /// Opens an empty scratch store that vanishes when it is dropped. The
    /// store is emptied on opening, whatever was found at the place that it
    /// was given.
    pub fn temporary() -> (r: Result<Store, sled::Error>)
        ensures
            r matches Ok(store) ==> store@ == no_pairs(),
    {
        match open_temporary() {
            Ok(db) => {
                let mut store = Store { db };
                match store.clear() {
                    Ok(()) => Ok(store),
                    Err(e) => Err(e),
                }
            },
            Err(e) => Err(e),
        }
    }

    /// The value filed under `key`, if any.
    pub fn get(&self, key: &[u8]) -> (r: Result<Option<Vec<u8>>, sled::Error>)
        ensures
            r matches Ok(found) ==> (match found {
                Some(value) => self@.contains_key(key@) && self@[key@] == value@,
                None => !self@.contains_key(key@),
            }),
    {
        db_get(&self.db, key)
    }

    /// Files `value` under `key`, replacing what was there. No other key
    /// changes. The write is all or nothing: where it fails, the pair has
    /// been filed all the same, or the store is as it was.
    pub fn insert(&mut self, key: &[u8], value: Vec<u8>) -> (r: Result<(), sled::Error>)
        ensures
            r is Ok ==> final(self)@ == old(self)@.insert(key@, value@),
            r is Err ==> final(self)@ == old(self)@ || final(self)@ == old(self)@.insert(
                key@,
                value@,
            ),
    {
        db_insert(&mut self.db, key, value)
    }

    /// Removes `key`; removing an absent key succeeds and changes nothing.
    /// No other key changes. The removal is all or nothing: where it fails,
    /// the key has been removed all the same, or the store is as it was.
    pub fn remove(&mut self, key: &[u8]) -> (r: Result<(), sled::Error>)
        ensures
            r is Ok ==> final(self)@ == old(self)@.remove(key@),
            r is Err ==> final(self)@ == old(self)@ || final(self)@ == old(self)@.remove(key@),
    {
        db_remove(&mut self.db, key)
    }

    /// Every pair of the store, by ascending key: as many pairs as the
    /// store has keys.
    pub fn entries(&self) -> (r: Result<Vec<(Vec<u8>, Vec<u8>)>, sled::Error>)
        ensures
            r matches Ok(pairs) ==> {
                &&& is_scan_of(pairs.deep_view(), self@)
                &&& pairs.deep_view() == scan_of(self@)
                &&& self@.dom().finite()
                &&& pairs.len() == self@.dom().len()
            },
    {
        match db_scan(&self.db) {
            Ok(pairs) => {
                proof {
                    lemma_scan_of(pairs.deep_view(), self@);
                    lemma_scan_counts(pairs.deep_view(), self@);
                }
                Ok(pairs)
            },
            Err(e) => Err(e),
        }
    }

    /// The number of pairs in the store: the number of its keys.
    pub fn len(&self) -> (r: Result<usize, sled::Error>)
        ensures
            r matches Ok(n) ==> {
                &&& n == scan_of(self@).len()
                &&& self@.dom().finite()
                &&& n == self@.dom().len()
            },
    {
        match self.entries() {
            Ok(pairs) => Ok(pairs.len()),
            Err(e) => Err(e),
        }
    }

    /// Removes every pair. Where it fails, some pairs may be gone; what is
    /// left is as it was.
    pub fn clear(&mut self) -> (r: Result<(), sled::Error>)
        ensures
            r is Ok ==> final(self)@ == no_pairs(),
            r is Err ==> final(self)@.submap_of(old(self)@),
    {
        db_clear(&mut self.db)
    }

    /// Forces pending writes to disk. The contents are unchanged.
    pub fn flush(&self) -> Result<(), sled::Error> {
        db_flush(&self.db)
    }
}

} // verus!
