//! The history store: [`HistoryDB`] files one [`HistoryEntry`] per track
//! under the track's id, merges repeated plays into it, and reads the
//! history back ranked and paged.
//!
//! Beside the entries the store holds one marker key. It is set when the
//! records of the earlier layout have been rewritten, so that the rewrite
//! runs once in the store's lifetime.

use crate::clock::unix_seconds;
use crate::codec::{
    backup_encoding, decode_entry, decode_legacy, encode_backup, encode_entry, entry_decoding,
    entry_encoding, legacy_decoding,
};
use crate::history::{
    by_play_count, by_recency, by_song_id, converted, entry_views, first_play, legacy_views,
    migration_key, migration_mark, oldHistoryEntry, page_entries, rank_by_play_count,
    rank_by_recency, replayed, track_of, HistoryEntry, HistoryEntryView, HistoryError,
    LegacyEntryView, FAVOURITE_SONGS_SIZE, HISTORY_PAGE_SIZE,
};
use crate::keys::same_bytes;
use crate::ranking::{
    distinct_by, lemma_pages_adjoin, lemma_rank_by, lemma_rank_by_distinct, page_of, rank_by,
};
use crate::store::{scan_of, Store};
use vstd::prelude::*;
use vstd::string::StrSliceExecFns;
use vstd::utf8::encode_utf8;

verus! {

/// The key under which the track `song_id` is filed.
pub open spec fn play_key(song_id: Seq<char>) -> Seq<u8> {
    encode_utf8(song_id)
}

/// Reads a stored pair as a history entry, if its value spells one. The
/// pair under the marker's key is no entry, whatever its value.
pub open spec fn pair_entry() -> spec_fn((Seq<u8>, Seq<u8>)) -> Option<HistoryEntryView> {
    |pair: (Seq<u8>, Seq<u8>)|
        if pair.0 == migration_key() {
            None
        } else {
            entry_decoding(pair.1)
        }
}

/// Reads a stored pair as an entry of the earlier layout, if its value
/// spells one.
pub open spec fn pair_legacy() -> spec_fn((Seq<u8>, Seq<u8>)) -> Option<LegacyEntryView> {
    |pair: (Seq<u8>, Seq<u8>)| legacy_decoding(pair.1)
}

/// The entries on record, in key order. The marker is passed over, and so
/// is any other value that spells no entry.
pub open spec fn history_of(store: Map<Seq<u8>, Seq<u8>>) -> Seq<HistoryEntryView> {
    scan_of(store).filter_map(pair_entry())
}

/// The records that read as entries of the earlier layout, in key order.
pub open spec fn legacy_of(store: Map<Seq<u8>, Seq<u8>>) -> Seq<LegacyEntryView> {
    scan_of(store).filter_map(pair_legacy())
}

/// The page of `size` entries that starts `offset` entries into the history,
/// most recently played first.
pub open spec fn recent_of(store: Map<Seq<u8>, Seq<u8>>, offset: usize, size: usize) -> Seq<
    HistoryEntryView,
> {
    page_of(rank_by(history_of(store), by_recency()), offset as int, size as int)
}

/// The `limit` most often played entries, most often played first.
pub open spec fn top_played_of(store: Map<Seq<u8>, Seq<u8>>, limit: usize) -> Seq<
    HistoryEntryView,
> {
    page_of(rank_by(history_of(store), by_play_count()), 0, limit as int)
}

/// The entry that a play of `entry` at `now` leaves on record: a track
/// already on record is counted once more and stamped `now`; another track
/// is recorded as played once, at the time that `entry` carries.
pub open spec fn play_record(
    before: Map<Seq<u8>, Seq<u8>>,
    entry: HistoryEntryView,
    now: u64,
) -> HistoryEntryView {
    let key = play_key(entry.song_id);
    if before.contains_key(key) {
        replayed(entry_decoding(before[key]).unwrap(), now)
    } else {
        first_play(track_of(entry), entry.time_stamp)
    }
}

/// `after` is `before` with a play of `entry` at `now` recorded: the track
/// is not filed under the marker's key, what was on record for it spelt an
/// entry whose count could grow, nothing but the track's own record has
/// changed, and that record is [`play_record`], in bytes that read back as
/// it.
pub open spec fn records_play(
    before: Map<Seq<u8>, Seq<u8>>,
    after: Map<Seq<u8>, Seq<u8>>,
    entry: HistoryEntryView,
    now: u64,
) -> bool {
    let key = play_key(entry.song_id);
    &&& key != migration_key()
    &&& before.contains_key(key) ==> {
        &&& entry_decoding(before[key]) matches Some(earlier)
        &&& earlier.play_count < u64::MAX
    }
    &&& after.contains_key(key)
    &&& after == before.insert(key, after[key])
    &&& entry_encoding(play_record(before, entry, now)) == Some(after[key])
    &&& entry_decoding(after[key]) == Some(play_record(before, entry, now))
}

/// Whether `e` is an error that a play of `entry` at `now` can end in, the
/// store being `before`:
/// - `Error`, where the track's id is the marker's key, or the count on
///   record cannot grow;
/// - `SerializationError`, where the bytes on record spell no entry, or the
///   record to be written cannot be encoded;
/// - `DbError`, whenever the store fails;
/// - never `Erorr`: the time is given.
pub open spec fn refuses_play(
    before: Map<Seq<u8>, Seq<u8>>,
    entry: HistoryEntryView,
    now: u64,
    e: HistoryError,
) -> bool {
    let key = play_key(entry.song_id);
    match e {
        HistoryError::DbError(_) => key != migration_key(),
        HistoryError::Erorr(_) => false,
        HistoryError::Error(_) => key == migration_key() || (before.contains_key(key) && (
        match entry_decoding(before[key]) {
            Some(on_record) => on_record.play_count == u64::MAX,
            None => false,
        })),
        HistoryError::SerializationError(_) => key != migration_key() && (if before.contains_key(
            key,
        ) {
            match entry_decoding(before[key]) {
                Some(on_record) => on_record.play_count < u64::MAX && entry_encoding(
                    replayed(on_record, now),
                ) is None,
                None => true,
            }
        } else {
            entry_encoding(first_play(track_of(entry), entry.time_stamp)) is None
        }),
    }
}

/// What a play of `entry` at `now` that ended in `r` has made of the store:
/// on success the play is on record; a failure leaves the store as it was,
/// unless the store itself failed while the record was written, when the
/// play may be on record all the same.
pub open spec fn play_outcome(
    before: Map<Seq<u8>, Seq<u8>>,
    after: Map<Seq<u8>, Seq<u8>>,
    entry: HistoryEntryView,
    now: u64,
    r: Result<(), HistoryError>,
) -> bool {
    match r {
        Ok(_) => records_play(before, after, entry, now),
        Err(e) => {
            &&& refuses_play(before, entry, now, e)
            &&& after == before || (e is DbError && records_play(before, after, entry, now))
        },
    }
}

/// What the rewrite makes of one stored value: a record of the earlier
/// layout becomes the same record played once; any other value stays.
pub open spec fn migrated_value(value: Seq<u8>) -> Seq<u8> {
    match legacy_decoding(value) {
        Some(old_entry) => match entry_encoding(converted(old_entry)) {
            Some(bytes) => bytes,
            None => value,
        },
        None => value,
    }
}

/// Whether a stored value is a record of the earlier layout that cannot be
/// written in the current one.
pub open spec fn cannot_rewrite(value: Seq<u8>) -> bool {
    match legacy_decoding(value) {
        Some(old_entry) => entry_encoding(converted(old_entry)) is None,
        None => false,
    }
}

/// `store` with the values of the keys in `done` rewritten.
pub open spec fn partly_migrated(store: Map<Seq<u8>, Seq<u8>>, done: Set<Seq<u8>>) -> Map<
    Seq<u8>,
    Seq<u8>,
> {
    Map::new(
        |k: Seq<u8>| store.contains_key(k),
        |k: Seq<u8>|
            if done.contains(k) {
                migrated_value(store[k])
            } else {
                store[k]
            },
    )
}

/// The store after [`HistoryDB::migrate_history`]: unchanged where the
/// marker is set; else every value rewritten and the marker set.
pub open spec fn migrated(store: Map<Seq<u8>, Seq<u8>>) -> Map<Seq<u8>, Seq<u8>> {
    if store.contains_key(migration_key()) {
        store
    } else {
        partly_migrated(store, store.dom()).insert(migration_key(), migration_mark())
    }
}

/// The store after [`HistoryDB::clear_history`]: nothing but the marker, if
/// it was set.
pub open spec fn cleared(store: Map<Seq<u8>, Seq<u8>>) -> Map<Seq<u8>, Seq<u8>> {
    without_entries(store, store.dom())
}

/// `store` without the records under the keys in `gone`; the marker stays.
pub open spec fn without_entries(store: Map<Seq<u8>, Seq<u8>>, gone: Set<Seq<u8>>) -> Map<
    Seq<u8>,
    Seq<u8>,
> {
    Map::new(
        |k: Seq<u8>| store.contains_key(k) && (k == migration_key() || !gone.contains(k)),
        |k: Seq<u8>| store[k],
    )
}

/// The store after the record of the track `song_id` is deleted; the
/// marker's key names no track, and nothing is deleted for it.
pub open spec fn deleted(store: Map<Seq<u8>, Seq<u8>>, song_id: Seq<char>) -> Map<
    Seq<u8>,
    Seq<u8>,
> {
    if play_key(song_id) == migration_key() {
        store
    } else {
        store.remove(play_key(song_id))
    }
}

/// Every record that spells an entry is filed under the id of its track,
/// as [`HistoryDB::add_entry`] files it.
pub open spec fn well_keyed(store: Map<Seq<u8>, Seq<u8>>) -> bool {
    forall|k: Seq<u8>| #[trigger]
        store.contains_key(k) ==> match entry_decoding(store[k]) {
            Some(entry) => k == play_key(entry.song_id),
            None => true,
        }
}

/// Recording a play in a store whose records are filed under their ids
/// leaves them so filed.
pub proof fn lemma_play_keeps_keys(
    before: Map<Seq<u8>, Seq<u8>>,
    after: Map<Seq<u8>, Seq<u8>>,
    entry: HistoryEntryView,
    now: u64,
)
    requires
        well_keyed(before),
        records_play(before, after, entry, now),
    ensures
        well_keyed(after),
{
    let key = play_key(entry.song_id);
    assert forall|k: Seq<u8>| #[trigger] after.contains_key(k) implies match entry_decoding(
        after[k],
    ) {
        Some(found) => k == play_key(found.song_id),
        None => true,
    } by {
        if k != key {
            assert(before.contains_key(k));
        } else if before.contains_key(key) {
            assert(entry_decoding(after[key]) == Some(play_record(before, entry, now)));
        }
    }
}

/// In a store whose records are filed under their ids, no two entries are
/// of the same track. `scan` is the store read in key order.
pub proof fn lemma_one_entry_per_track(
    store: Map<Seq<u8>, Seq<u8>>,
    scan: Seq<(Seq<u8>, Seq<u8>)>,
)
    requires
        crate::store::is_scan_of(scan, store),
        well_keyed(store),
    ensures
        distinct_by(history_of(store), by_song_id()),
{
    crate::store::lemma_scan_of(scan, store);
    let entries = history_of(store);
    assert forall|a: int, b: int| 0 <= a < b < entries.len() implies by_song_id()(entries[a])
        != by_song_id()(entries[b]) by {
        crate::ranking::lemma_filter_map_sources(scan, pair_entry(), a, b);
        let (i, j) = choose|i: int, j: int|
            0 <= i < j < scan.len() && #[trigger] pair_entry()(scan[i]) == Some(entries[a])
                && #[trigger] pair_entry()(scan[j]) == Some(entries[b]);
        assert(store.contains_key(scan[i].0) && store.contains_key(scan[j].0));
        assert(crate::keys::bytes_lt(scan[i].0, scan[j].0));
        crate::keys::lemma_bytes_lt_irreflexive(scan[i].0);
    }
}

/// In a store whose records are filed under their ids, a track on record
/// has one entry in the history, and no second. `scan` is the store read in
/// key order.
pub proof fn lemma_track_on_record_once(
    store: Map<Seq<u8>, Seq<u8>>,
    scan: Seq<(Seq<u8>, Seq<u8>)>,
    song_id: Seq<char>,
)
    requires
        crate::store::is_scan_of(scan, store),
        well_keyed(store),
        play_key(song_id) != migration_key(),
        store.contains_key(play_key(song_id)),
        entry_decoding(store[play_key(song_id)]) is Some,
    ensures
        exists|i: int|
            0 <= i < history_of(store).len() && #[trigger] history_of(store)[i] == entry_decoding(
                store[play_key(song_id)],
            ).unwrap() && history_of(store)[i].song_id == song_id,
        forall|i: int, j: int|
            0 <= i < history_of(store).len() && 0 <= j < history_of(store).len() && history_of(
                store,
            )[i].song_id == song_id && history_of(store)[j].song_id == song_id ==> i == j,
{
    crate::store::lemma_scan_of(scan, store);
    lemma_one_entry_per_track(store, scan);
    let key = play_key(song_id);
    let on_record = entry_decoding(store[key]).unwrap();
    vstd::utf8::encode_utf8_decode_utf8(song_id);
    vstd::utf8::encode_utf8_decode_utf8(on_record.song_id);
    assert(on_record.song_id == song_id);
    let at = choose|at: int| 0 <= at < scan.len() && #[trigger] scan[at].0 == key;
    assert(pair_entry()(scan[at]) == Some(on_record));
    crate::ranking::lemma_filter_map_keeps(scan, pair_entry(), at);
    let entries = history_of(store);
    assert forall|i: int, j: int|
        0 <= i < entries.len() && 0 <= j < entries.len() && entries[i].song_id == song_id
            && entries[j].song_id == song_id implies i == j by {
        if i < j {
            assert(by_song_id()(entries[i]) != by_song_id()(entries[j]));
        } else if j < i {
            assert(by_song_id()(entries[j]) != by_song_id()(entries[i]));
        }
    }
}

/// The record that a play leaves: a first play is on record as one play of
/// the track, at the time that the entry carries, whatever count the entry
/// carries; a replay counts one more than was on record, at `now`.
pub proof fn lemma_play_is_counted(
    before: Map<Seq<u8>, Seq<u8>>,
    after: Map<Seq<u8>, Seq<u8>>,
    entry: HistoryEntryView,
    now: u64,
)
    requires
        records_play(before, after, entry, now),
    ensures
        entry_decoding(after[play_key(entry.song_id)]) matches Some(on_record) && {
            &&& before.contains_key(play_key(entry.song_id)) ==> {
                &&& entry_decoding(before[play_key(entry.song_id)]) matches Some(earlier)
                &&& on_record.play_count == earlier.play_count + 1
                &&& on_record.time_stamp == now
                &&& on_record.song_id == earlier.song_id
            }
            &&& !before.contains_key(play_key(entry.song_id)) ==> {
                &&& on_record.play_count == 1
                &&& on_record.time_stamp == entry.time_stamp
                &&& on_record.song_id == entry.song_id
                &&& on_record.song_name == entry.song_name
                &&& on_record.artist_name == entry.artist_name
            }
        },
        before.dom().finite() ==> after.dom().finite() && after.dom().len() == if before.contains_key(
            play_key(entry.song_id),
        ) {
            before.dom().len()
        } else {
            before.dom().len() + 1
        },
{
    let key = play_key(entry.song_id);
    assert(after.dom() =~= before.dom().insert(key));
}

/// Plays of two different tracks do not interfere: recorded in either
/// order, they leave the same store.
pub proof fn lemma_plays_commute(
    start: Map<Seq<u8>, Seq<u8>>,
    one_first: Map<Seq<u8>, Seq<u8>>,
    one_then_other: Map<Seq<u8>, Seq<u8>>,
    other_first: Map<Seq<u8>, Seq<u8>>,
    other_then_one: Map<Seq<u8>, Seq<u8>>,
    one: HistoryEntryView,
    other: HistoryEntryView,
    one_time: u64,
    other_time: u64,
)
    requires
        one.song_id != other.song_id,
        records_play(start, one_first, one, one_time),
        records_play(one_first, one_then_other, other, other_time),
        records_play(start, other_first, other, other_time),
        records_play(other_first, other_then_one, one, one_time),
    ensures
        one_then_other == other_then_one,
{
    vstd::utf8::encode_utf8_decode_utf8(one.song_id);
    vstd::utf8::encode_utf8_decode_utf8(other.song_id);
    let a = play_key(one.song_id);
    let b = play_key(other.song_id);
    assert(a != b);
    assert(play_record(one_first, other, other_time) == play_record(start, other, other_time));
    assert(play_record(other_first, one, one_time) == play_record(start, one, one_time));
    assert(one_then_other =~= other_then_one);
}

/// Playing a track that is not on record twice leaves one record of it,
/// with a play count of two and the time of the second play, whatever
/// counts the entries carry; the first play was on record with a count of
/// one. Every other record is as it was, and the store has one key more
/// than before the first play.
pub proof fn lemma_two_plays(
    before: Map<Seq<u8>, Seq<u8>>,
    between: Map<Seq<u8>, Seq<u8>>,
    after: Map<Seq<u8>, Seq<u8>>,
    first: HistoryEntryView,
    second: HistoryEntryView,
    first_time: u64,
    second_time: u64,
)
    requires
        first.song_id == second.song_id,
        !before.contains_key(play_key(first.song_id)),
        records_play(before, between, first, first_time),
        records_play(between, after, second, second_time),
    ensures
        entry_decoding(between[play_key(first.song_id)]) matches Some(once)
            && once.play_count == 1,
        after.dom() == before.dom().insert(play_key(first.song_id)),
        after.dom() == between.dom(),
        before.dom().finite() ==> after.dom().finite() && after.dom().len() == before.dom().len()
            + 1,
        after == before.insert(play_key(first.song_id), after[play_key(first.song_id)]),
        entry_decoding(after[play_key(first.song_id)]) matches Some(on_record) && {
            &&& on_record.song_id == first.song_id
            &&& on_record.song_name == first.song_name
            &&& on_record.artist_name == first.artist_name
            &&& on_record.play_count == 2
            &&& on_record.time_stamp == second_time
        },
{
    let key = play_key(first.song_id);
    assert(between.contains_key(key));
    assert(entry_decoding(between[key]) == Some(first_play(track_of(first), first.time_stamp)));
    assert(after =~= before.insert(key, after[key]));
    assert(after.dom() =~= before.dom().insert(key));
    assert(after.dom() =~= between.dom());
}

/// Reading a page of the history twice from an unchanged store gives the
/// same entries in the same order: most recently played first.
pub proof fn lemma_recent_repeats(
    store: Map<Seq<u8>, Seq<u8>>,
    offset: usize,
    size: usize,
    first: Seq<HistoryEntryView>,
    second: Seq<HistoryEntryView>,
)
    requires
        first == recent_of(store, offset, size),
        second == recent_of(store, offset, size),
    ensures
        first == second,
        forall|i: int, j: int|
            0 <= i < j < first.len() ==> first[i].time_stamp >= first[j].time_stamp,
{
    lemma_rank_by(history_of(store), by_recency());
    let ranked = rank_by(history_of(store), by_recency());
    assert forall|i: int, j: int| 0 <= i < j < first.len() implies first[i].time_stamp
        >= first[j].time_stamp by {
        assert(first[i] == ranked[offset + i]);
        assert(first[j] == ranked[offset + j]);
        assert(by_recency()(ranked[offset + i]) <= by_recency()(ranked[offset + j]));
    }
}

/// On a history of `2 * size` entries of distinct tracks, the first two
/// pages of `size` share no track, and together they hold exactly the
/// entries on record.
pub proof fn lemma_recent_pages_partition(store: Map<Seq<u8>, Seq<u8>>, size: usize)
    requires
        history_of(store).len() == 2 * size,
        2 * size <= usize::MAX,
        distinct_by(history_of(store), by_song_id()),
    ensures
        recent_of(store, 0, size).len() == size,
        recent_of(store, size, size).len() == size,
        forall|i: int, j: int|
            0 <= i < size && 0 <= j < size ==> recent_of(store, 0, size)[i].song_id != recent_of(
                store,
                size,
                size,
            )[j].song_id,
        (recent_of(store, 0, size) + recent_of(store, size, size)).to_multiset() == history_of(
            store,
        ).to_multiset(),
{
    let all = history_of(store);
    let ranked = rank_by(all, by_recency());
    lemma_rank_by(all, by_recency());
    lemma_rank_by_distinct(all, by_recency(), by_song_id());
    lemma_pages_adjoin(ranked, size as int);
    let a = recent_of(store, 0, size);
    let b = recent_of(store, size, size);
    assert forall|i: int, j: int| 0 <= i < size && 0 <= j < size implies a[i].song_id
        != b[j].song_id by {
        assert(a[i] == ranked[i]);
        assert(b[j] == ranked[size + j]);
        assert(by_song_id()(ranked[i]) != by_song_id()(ranked[size + j]));
    }
}

/// Bringing a store to the current layout a second time changes nothing.
pub proof fn lemma_migrate_once(store: Map<Seq<u8>, Seq<u8>>)
    ensures
        migrated(store).contains_key(migration_key()),
        migrated(migrated(store)) == migrated(store),
{
}

/// The listening history, one record per track.
pub struct HistoryDB {
    pub db: Store,
}

impl View for HistoryDB {
    type V = Map<Seq<u8>, Seq<u8>>;

    open spec fn view(&self) -> Map<Seq<u8>, Seq<u8>> {
        self.db@
    }
}

impl HistoryDB {
    /// Opens the history in the user's data directory, as an earlier run
    /// left it. The history is kept compressed. A caller that wants the backup on disk before anything is
    /// rewritten opens the history so, takes [`HistoryDB::backup_history`]
    /// where [`HistoryDB::needs_migration`] says so, and then calls
    /// [`HistoryDB::migrate_history`].
    pub fn open() -> (r: Result<HistoryDB, HistoryError>)
        ensures
            r matches Err(e) ==> e is DbError,
    {
        match Store::open_in("/tmp", "Feather", "history_db", 256 * 1024, true, false) {
            Ok(db) => Ok(HistoryDB { db }),
            Err(e) => Err(HistoryError::DbError(e)),
        }
    }

    /// Opens the history in the user's data directory and brings it to the
    /// current layout. With the history comes the backup that
    /// [`HistoryDB::migrate_history`] took, for the caller to keep.
    pub fn new() -> (r: Result<(HistoryDB, Option<Vec<u8>>), HistoryError>)
        ensures
            r matches Ok((history, _)) ==> history@.contains_key(migration_key()),
            r matches Err(e) ==> e is DbError || e is SerializationError,
    {
        match HistoryDB::open() {
            Ok(history) => {
                let mut history = history;
                match history.migrate_history() {
                    Ok(backup) => Ok((history, backup)),
                    Err(e) => Err(e),
                }
            },
            Err(e) => Err(e),
        }
    }

    /// Takes `db` as the history and brings it to the current layout. With
    /// the history comes the backup that [`HistoryDB::migrate_history`]
    /// took, for the caller to keep. The errors are those of
    /// [`HistoryDB::migrate_history`].
    pub fn with_store(db: Store) -> (r: Result<(HistoryDB, Option<Vec<u8>>), HistoryError>)
        ensures
            r matches Ok((history, backup)) ==> {
                &&& history@ == migrated(db@)
                &&& backup is None <==> db@.contains_key(migration_key())
                &&& backup matches Some(bytes) ==> backup_encoding(legacy_of(db@)) == Some(bytes@)
            },
            r matches Err(e) ==> e is DbError || e is SerializationError,
            r matches Err(HistoryError::SerializationError(_)) ==> {
                &&& !db@.contains_key(migration_key())
                &&& backup_encoding(legacy_of(db@)) is None || exists|k: Seq<u8>|
                    db@.contains_key(k) && #[trigger] cannot_rewrite(db@[k])
            },
    {
        let mut history = HistoryDB { db };
        match history.migrate_history() {
            Ok(backup) => Ok((history, backup)),
            Err(e) => Err(e),
        }
    }

    /// Every entry on record, in key order. The marker is passed over, and
    /// so is any other value that spells no entry.
    pub fn entries(&self) -> (r: Result<Vec<HistoryEntry>, HistoryError>)
        ensures
            r matches Ok(entries) ==> entry_views(entries@) == history_of(self@),
            r matches Err(e) ==> e is DbError,
    {
        let pairs = match self.db.entries() {
            Ok(pairs) => pairs,
            Err(e) => {
                return Err(HistoryError::DbError(e));
            },
        };
        let ghost scan = pairs.deep_view();
        let mut entries: Vec<HistoryEntry> = Vec::new();
        let mut i: usize = 0;
        while i < pairs.len()
            invariant
                i <= pairs.len(),
                scan == pairs.deep_view(),
                entry_views(entries@) == scan.take(i as int).filter_map(pair_entry()),
            decreases pairs.len() - i,
        {
            let ghost before = entry_views(entries@);
            proof {
                scan.lemma_filter_map_take_succ(pair_entry(), i as int);
                assert(scan[i as int].0 =~= pairs[i as int].0@);
                assert(scan[i as int].1 =~= pairs[i as int].1@);
            }
            if !same_bytes(pairs[i].0.as_slice(), "DONE".as_bytes()) {
                match decode_entry(pairs[i].1.as_slice()) {
                    Ok(entry) => {
                        entries.push(entry);
                        proof {
                            assert(entry_views(entries@) =~= before + seq![entry@]);
                        }
                    },
                    Err(_) => {},
                }
            }
            i += 1;
        }
        proof {
            assert(scan.take(pairs.len() as int) =~= scan);
        }
        Ok(entries)
    }

    /// The records of the earlier layout, encoded as one list: what
    /// [`HistoryDB::migrate_history`] is about to rewrite.
    pub fn backup_history(&self) -> (r: Result<Vec<u8>, HistoryError>)
        ensures
            r matches Ok(bytes) ==> backup_encoding(legacy_of(self@)) == Some(bytes@),
            r matches Err(e) ==> e is DbError || (e is SerializationError && backup_encoding(
                legacy_of(self@),
            ) is None),
    {
        let pairs = match self.db.entries() {
            Ok(pairs) => pairs,
            Err(e) => {
                return Err(HistoryError::DbError(e));
            },
        };
        let ghost scan = pairs.deep_view();
        let mut found: Vec<oldHistoryEntry> = Vec::new();
        let mut i: usize = 0;
        while i < pairs.len()
            invariant
                i <= pairs.len(),
                scan == pairs.deep_view(),
                legacy_views(found@) == scan.take(i as int).filter_map(pair_legacy()),
            decreases pairs.len() - i,
        {
            let ghost before = legacy_views(found@);
            proof {
                scan.lemma_filter_map_take_succ(pair_legacy(), i as int);
                assert(scan[i as int].1 =~= pairs[i as int].1@);
            }
            match decode_legacy(pairs[i].1.as_slice()) {
                Ok(entry) => {
                    found.push(entry);
                    proof {
                        assert(legacy_views(found@) =~= before + seq![entry@]);
                    }
                },
                Err(_) => {},
            }
            i += 1;
        }
        proof {
            assert(scan.take(pairs.len() as int) =~= scan);
        }
        match encode_backup(&found) {
            Ok(bytes) => Ok(bytes),
            Err(e) => Err(HistoryError::SerializationError(e)),
        }
    }

    /// Whether the store still awaits [`HistoryDB::migrate_history`].
    pub fn needs_migration(&self) -> (r: Result<bool, HistoryError>)
        ensures
            r matches Ok(due) ==> due == !self@.contains_key(migration_key()),
            r matches Err(e) ==> e is DbError,
    {
        match self.db.get("DONE".as_bytes()) {
            Ok(found) => Ok(found.is_none()),
            Err(e) => Err(HistoryError::DbError(e)),
        }
    }

    /// Brings the store to the current layout, once.
    ///
    /// Where the marker is set nothing happens and `None` is returned.
    /// Otherwise the records of the earlier layout are backed up, each is
    /// rewritten as a track played once, the marker is set, and the backup
    /// is returned.
    ///
    /// Where the work fails part-way, the records rewritten so far stay
    /// rewritten and the others are as they were; the marker is set only if
    /// the store failed while setting it. `SerializationError` says that
    /// the backup, or a record in the current layout, cannot be encoded.
    pub fn migrate_history(&mut self) -> (r: Result<Option<Vec<u8>>, HistoryError>)
        ensures
            r matches Ok(backup) ==> {
                &&& final(self)@ == migrated(old(self)@)
                &&& backup is None <==> old(self)@.contains_key(migration_key())
                &&& backup matches Some(bytes) ==> backup_encoding(legacy_of(old(self)@)) == Some(
                    bytes@,
                )
            },
            old(self)@.contains_key(migration_key()) ==> final(self)@ == old(self)@,
            r is Err ==> final(self)@ == migrated(old(self)@) || exists|done: Set<Seq<u8>>|
                final(self)@ == #[trigger] partly_migrated(old(self)@, done),
            r matches Err(e) ==> e is DbError || e is SerializationError,
            r matches Err(HistoryError::SerializationError(_)) ==> {
                &&& !old(self)@.contains_key(migration_key())
                &&& backup_encoding(legacy_of(old(self)@)) is None || exists|k: Seq<u8>|
                    old(self)@.contains_key(k) && #[trigger] cannot_rewrite(old(self)@[k])
            },
    {
        proof {
            assert(old(self)@ =~= partly_migrated(old(self)@, Set::empty()));
        }
        match self.needs_migration() {
            Ok(true) => {},
            Ok(false) => {
                return Ok(None);
            },
            Err(e) => {
                return Err(e);
            },
        }
        let backup = match self.backup_history() {
            Ok(bytes) => bytes,
            Err(e) => {
                return Err(e);
            },
        };
        let pairs = match self.db.entries() {
            Ok(pairs) => pairs,
            Err(e) => {
                return Err(HistoryError::DbError(e));
            },
        };
        let ghost start = self@;
        let ghost scan = pairs.deep_view();
        let ghost mut done: Set<Seq<u8>> = Set::empty();
        let mut i: usize = 0;
        while i < pairs.len()
            invariant
                i <= pairs.len(),
                scan == pairs.deep_view(),
                start == old(self)@,
                !start.contains_key(migration_key()),
                crate::store::is_scan_of(scan, start),
                self@ == partly_migrated(start, done),
                forall|j: int| 0 <= j < i ==> done.contains(#[trigger] scan[j].0),
            decreases pairs.len() - i,
        {
            let ghost key = scan[i as int].0;
            let ghost before = self@;
            proof {
                assert(scan[i as int].0 =~= pairs[i as int].0@);
                assert(scan[i as int].1 =~= pairs[i as int].1@);
                assert(start.contains_key(key) && start[key] == scan[i as int].1);
            }
            match decode_legacy(pairs[i].1.as_slice()) {
                Ok(old_entry) => {
                    let entry = old_entry.convert();
                    match encode_entry(&entry) {
                        Ok(bytes) => {
                            match self.db.insert(pairs[i].0.as_slice(), bytes) {
                                Ok(()) => {},
                                Err(e) => {
                                    proof {
                                        if self@ != before {
                                            assert(self@ =~= partly_migrated(
                                                start,
                                                done.insert(key),
                                            ));
                                        }
                                    }
                                    return Err(HistoryError::DbError(e));
                                },
                            }
                        },
                        Err(e) => {
                            proof {
                                assert(cannot_rewrite(start[key]));
                            }
                            return Err(HistoryError::SerializationError(e));
                        },
                    }
                },
                Err(_) => {},
            }
            proof {
                assert(self@ =~= partly_migrated(start, done.insert(key)));
                done = done.insert(key);
            }
            i += 1;
        }
        proof {
            assert(partly_migrated(start, done) =~= partly_migrated(start, start.dom()));
        }
        match self.db.insert("DONE".as_bytes(), "true".as_bytes_vec()) {
            Ok(()) => Ok(Some(backup)),
            Err(e) => Err(HistoryError::DbError(e)),
        }
    }

    /// Records a play of `entry`'s track at the current time.
    ///
    /// A track already on record has its play count raised by one and its
    /// time set to the clock's reading. Another track is recorded as played
    /// once, at the time that `entry` carries, and the clock is not read.
    /// No other record changes. The errors are those of
    /// [`HistoryDB::add_entry_at`], and `Erorr` where the track is on record
    /// and the clock cannot be read.
    pub fn add_entry(&mut self, entry: &HistoryEntry) -> (r: Result<(), HistoryError>)
        ensures
            r is Ok ==> exists|now: u64| records_play(old(self)@, final(self)@, entry@, now),
            r matches Err(HistoryError::Erorr(_)) ==> {
                &&& final(self)@ == old(self)@
                &&& play_key(entry@.song_id) != migration_key()
                &&& old(self)@.contains_key(play_key(entry@.song_id))
            },
            !(r matches Err(HistoryError::Erorr(_))) ==> exists|now: u64| #[trigger]
                play_outcome(old(self)@, final(self)@, entry@, now, r),
    {
        if same_bytes(entry.song_id.as_str().as_bytes(), "DONE".as_bytes()) {
            let r = Err(HistoryError::Error("the id is reserved".to_string()));
            proof {
                assert(play_outcome(old(self)@, self@, entry@, 0, r));
            }
            return r;
        }
        let found = match self.db.get(entry.song_id.as_str().as_bytes()) {
            Ok(found) => found,
            Err(e) => {
                let r = Err(HistoryError::DbError(e));
                proof {
                    assert(play_outcome(old(self)@, self@, entry@, 0, r));
                }
                return r;
            },
        };
        let now: u64 = if found.is_some() {
            match unix_seconds() {
                Ok(now) => now,
                Err(e) => {
                    return Err(HistoryError::Erorr(e));
                },
            }
        } else {
            0
        };
        let r = self.file_play(found, entry, now);
        proof {
            assert(play_outcome(old(self)@, self@, entry@, now, r));
        }
        r
    }

    /// Records a play of `entry`'s track at `now` seconds since the epoch.
    ///
    /// A track already on record has its play count raised by one and its
    /// time set to `now`. Another track is recorded as played once, at the
    /// time that `entry` carries; the count that `entry` carries is not
    /// looked at. No other record changes.
    ///
    /// `Error` is returned where the track's id is the marker's key, or the
    /// count on record cannot grow; `SerializationError` where the bytes on
    /// record spell no entry. A failure leaves the store as it was; only
    /// where the store itself fails while the record is written may the
    /// play be on record all the same.
    pub fn add_entry_at(&mut self, entry: &HistoryEntry, now: u64) -> (r: Result<(), HistoryError>)
        ensures
            play_outcome(old(self)@, final(self)@, entry@, now, r),
    {
        if same_bytes(entry.song_id.as_str().as_bytes(), "DONE".as_bytes()) {
            return Err(HistoryError::Error("the id is reserved".to_string()));
        }
        let found = match self.db.get(entry.song_id.as_str().as_bytes()) {
            Ok(found) => found,
            Err(e) => {
                return Err(HistoryError::DbError(e));
            },
        };
        self.file_play(found, entry, now)
    }

    /// Writes the record that a play of `entry` at `now` leaves, given what
    /// was `found` under the track's key.
    fn file_play(&mut self, found: Option<Vec<u8>>, entry: &HistoryEntry, now: u64) -> (r: Result<
        (),
        HistoryError,
    >)
        requires
            play_key(entry@.song_id) != migration_key(),
            match found {
                Some(bytes) => old(self)@.contains_key(play_key(entry@.song_id)) && old(
                    self,
                )@[play_key(entry@.song_id)] == bytes@,
                None => !old(self)@.contains_key(play_key(entry@.song_id)),
            },
        ensures
            play_outcome(old(self)@, final(self)@, entry@, now, r),
    {
        let on_record = match found {
            Some(bytes) => match decode_entry(bytes.as_slice()) {
                Ok(on_record) => Some(on_record),
                Err(e) => {
                    return Err(HistoryError::SerializationError(e));
                },
            },
            None => None,
        };
        let record = match HistoryEntry::played(on_record, entry, now) {
            Some(record) => record,
            None => {
                return Err(HistoryError::Error("play count cannot grow".to_string()));
            },
        };
        let bytes = match encode_entry(&record) {
            Ok(bytes) => bytes,
            Err(e) => {
                return Err(HistoryError::SerializationError(e));
            },
        };
        match self.db.insert(entry.song_id.as_str().as_bytes(), bytes) {
            Ok(()) => Ok(()),
            Err(e) => Err(HistoryError::DbError(e)),
        }
    }

    /// The page of `size` entries that starts `offset` entries into the
    /// history, most recently played first.
    pub fn recent(&self, offset: usize, size: usize) -> (r: Result<Vec<HistoryEntry>, HistoryError>)
        ensures
            r matches Ok(page) ==> {
                &&& entry_views(page@) == recent_of(self@, offset, size)
                &&& page.len() <= size
                &&& forall|i: int, j: int|
                    0 <= i < j < page.len() ==> page[i].time_stamp >= page[j].time_stamp
            },
            r matches Err(e) ==> e is DbError,
    {
        match self.entries() {
            Ok(entries) => {
                let ranked = rank_by_recency(entries);
                let ghost all = ranked@;
                let page = page_entries(ranked, offset, size);
                proof {
                    assert forall|i: int, j: int| 0 <= i < j < page.len() implies page[i].time_stamp
                        >= page[j].time_stamp by {
                        assert(page[i]@ == all[offset + i]@);
                        assert(page[j]@ == all[offset + j]@);
                    }
                }
                Ok(page)
            },
            Err(e) => Err(e),
        }
    }

    /// The page of [`HISTORY_PAGE_SIZE`] entries that starts `offset`
    /// entries into the history, most recently played first.
    pub fn get_history(&self, offset: usize) -> (r: Result<Vec<HistoryEntry>, HistoryError>)
        ensures
            r matches Ok(page) ==> {
                &&& entry_views(page@) == recent_of(self@, offset, HISTORY_PAGE_SIZE)
                &&& page.len() <= HISTORY_PAGE_SIZE
                &&& forall|i: int, j: int|
                    0 <= i < j < page.len() ==> page[i].time_stamp >= page[j].time_stamp
            },
            r matches Err(e) ==> e is DbError,
    {
        self.recent(offset, HISTORY_PAGE_SIZE)
    }

    /// The `limit` most often played entries, most often played first.
    pub fn top_played(&self, limit: usize) -> (r: Result<Vec<HistoryEntry>, HistoryError>)
        ensures
            r matches Ok(top) ==> {
                &&& entry_views(top@) == top_played_of(self@, limit)
                &&& top.len() <= limit
                &&& forall|i: int, j: int|
                    0 <= i < j < top.len() ==> top[i].play_count >= top[j].play_count
            },
            r matches Err(e) ==> e is DbError,
    {
        match self.entries() {
            Ok(entries) => {
                let ranked = rank_by_play_count(entries);
                let ghost all = ranked@;
                let top = page_entries(ranked, 0, limit);
                proof {
                    assert forall|i: int, j: int| 0 <= i < j < top.len() implies top[i].play_count
                        >= top[j].play_count by {
                        assert(top[i]@ == all[0 + i]@);
                        assert(top[j]@ == all[0 + j]@);
                    }
                }
                Ok(top)
            },
            Err(e) => Err(e),
        }
    }

    /// The [`FAVOURITE_SONGS_SIZE`] most often played entries, most often
    /// played first.
    pub fn most_played(&self) -> (r: Result<Vec<HistoryEntry>, HistoryError>)
        ensures
            r matches Ok(top) ==> {
                &&& entry_views(top@) == top_played_of(self@, FAVOURITE_SONGS_SIZE)
                &&& top.len() <= FAVOURITE_SONGS_SIZE
                &&& forall|i: int, j: int|
                    0 <= i < j < top.len() ==> top[i].play_count >= top[j].play_count
            },
            r matches Err(e) ==> e is DbError,
    {
        self.top_played(FAVOURITE_SONGS_SIZE)
    }

    /// Removes the record of the track `song_id`, if there is one. The
    /// marker's key names no track: for it nothing is removed. Where the
    /// store fails, the record is removed all the same, or the store is as
    /// it was.
    pub fn delete_entry(&mut self, song_id: &str) -> (r: Result<(), HistoryError>)
        ensures
            r is Ok ==> final(self)@ == deleted(old(self)@, song_id@),
            r matches Err(e) ==> {
                &&& e is DbError
                &&& play_key(song_id@) != migration_key()
                &&& final(self)@ == old(self)@ || final(self)@ == deleted(old(self)@, song_id@)
            },
    {
        if same_bytes(song_id.as_bytes(), "DONE".as_bytes()) {
            return Ok(());
        }
        match self.db.remove(song_id.as_bytes()) {
            Ok(()) => Ok(()),
            Err(e) => Err(HistoryError::DbError(e)),
        }
    }

    /// Removes every record. The marker stays as it is, so that the rewrite
    /// of the earlier layout is not run again. Where the store fails, some
    /// records may be gone; what is left is as it was, and the marker is
    /// among it if it was set.
    pub fn clear_history(&mut self) -> (r: Result<(), HistoryError>)
        ensures
            r is Ok ==> final(self)@ == cleared(old(self)@),
            r matches Err(e) ==> e is DbError,
            r is Err ==> exists|gone: Set<Seq<u8>>|
                final(self)@ == #[trigger] without_entries(old(self)@, gone),
    {
        proof {
            assert(old(self)@ =~= without_entries(old(self)@, Set::empty()));
        }
        let pairs = match self.db.entries() {
            Ok(pairs) => pairs,
            Err(e) => {
                return Err(HistoryError::DbError(e));
            },
        };
        let ghost start = self@;
        let ghost scan = pairs.deep_view();
        let ghost mut gone: Set<Seq<u8>> = Set::empty();
        let mut i: usize = 0;
        while i < pairs.len()
            invariant
                i <= pairs.len(),
                scan == pairs.deep_view(),
                start == old(self)@,
                crate::store::is_scan_of(scan, start),
                self@ == without_entries(start, gone),
                forall|j: int| 0 <= j < i ==> gone.contains(#[trigger] scan[j].0),
            decreases pairs.len() - i,
        {
            let ghost key = scan[i as int].0;
            let ghost before = self@;
            proof {
                assert(scan[i as int].0 =~= pairs[i as int].0@);
            }
            if !same_bytes(pairs[i].0.as_slice(), "DONE".as_bytes()) {
                match self.db.remove(pairs[i].0.as_slice()) {
                    Ok(()) => {},
                    Err(e) => {
                        proof {
                            if self@ != before {
                                assert(self@ =~= without_entries(start, gone.insert(key)));
                            }
                        }
                        return Err(HistoryError::DbError(e));
                    },
                }
            }
            proof {
                assert(self@ =~= without_entries(start, gone.insert(key)));
                gone = gone.insert(key);
            }
            i += 1;
        }
        proof {
            assert(without_entries(start, gone) =~= without_entries(start, start.dom()));
        }
        Ok(())
    }

    /// The id of the most recently played track, or `None` for an empty
    /// history. Of several tracks played at the same second, the one first
    /// in key order.
    pub fn get_last_played_song(&self) -> (r: Result<Option<String>, HistoryError>)
        ensures
            r matches Ok(last) ==> match last {
                Some(id) => history_of(self@).len() > 0 && id@ == rank_by(
                    history_of(self@),
                    by_recency(),
                )[0].song_id,
                None => history_of(self@).len() == 0,
            },
            r matches Err(e) ==> e is DbError,
    {
        match self.entries() {
            Ok(entries) => {
                proof {
                    lemma_rank_by(history_of(self@), by_recency());
                }
                let mut ranked = rank_by_recency(entries);
                if ranked.len() == 0 {
                    Ok(None)
                } else {
                    let ghost all = entry_views(ranked@);
                    let first = ranked.swap_remove(0);
                    proof {
                        assert(first@ == all[0]);
                    }
                    Ok(Some(first.song_id))
                }
            },
            Err(e) => Err(e),
        }
    }
}

} // verus!
