//! Listening history: one entry per track, with the time it was last
//! played and how often it has been played; and how entries are ranked and
//! cut into pages.

use crate::clock::unix_seconds;
use crate::ranking::{lemma_insert_point_at, lemma_rank_by, page_of, rank_by, take_page};
use crate::song::{clone_names, Song};
use vstd::prelude::*;
use vstd::utf8::encode_utf8;

verus! {

/// How many entries the list of favourites holds at most.
pub const FAVOURITE_SONGS_SIZE: usize = 5;

/// How many entries one page of the history holds at most.
pub const HISTORY_PAGE_SIZE: usize = 20;

/// The key whose presence records that the store has been brought to the
/// current layout.
pub open spec fn migration_key() -> Seq<u8> {
    encode_utf8("DONE"@)
}

/// The value filed under [`migration_key`].
pub open spec fn migration_mark() -> Seq<u8> {
    encode_utf8("true"@)
}

/// One track's place in the history.
#[derive(Debug)]
pub struct HistoryEntry {
    pub song_name: String,
    pub song_id: String,
    pub artist_name: Vec<String>,
    pub time_stamp: u64,
    pub play_count: u64,
}

/// What a [`HistoryEntry`] is, as plain values.
pub struct HistoryEntryView {
    pub song_name: Seq<char>,
    pub song_id: Seq<char>,
    pub artist_name: Seq<Seq<char>>,
    pub time_stamp: u64,
    pub play_count: u64,
}

impl View for HistoryEntry {
    type V = HistoryEntryView;

    open spec fn view(&self) -> HistoryEntryView {
        HistoryEntryView {
            song_name: self.song_name@,
            song_id: self.song_id@,
            artist_name: self.artist_name.deep_view(),
            time_stamp: self.time_stamp,
            play_count: self.play_count,
        }
    }
}

/// A history record of the layout that had no play count.
#[allow(non_camel_case_types)]
#[derive(Debug)]
pub struct oldHistoryEntry {
    pub song_name: String,
    pub song_id: String,
    pub artist_name: Vec<String>,
    pub time_stamp: u64,
}

/// What an [`oldHistoryEntry`] is, as plain values.
pub struct LegacyEntryView {
    pub song_name: Seq<char>,
    pub song_id: Seq<char>,
    pub artist_name: Seq<Seq<char>>,
    pub time_stamp: u64,
}

impl View for oldHistoryEntry {
    type V = LegacyEntryView;

    open spec fn view(&self) -> LegacyEntryView {
        LegacyEntryView {
            song_name: self.song_name@,
            song_id: self.song_id@,
            artist_name: self.artist_name.deep_view(),
            time_stamp: self.time_stamp,
        }
    }
}

/// The views of a run of history entries, in order.
pub open spec fn entry_views(entries: Seq<HistoryEntry>) -> Seq<HistoryEntryView> {
    entries.map_values(|e: HistoryEntry| e@)
}

/// The views of a run of entries of the earlier layout, in order.
pub open spec fn legacy_views(entries: Seq<oldHistoryEntry>) -> Seq<LegacyEntryView> {
    entries.map_values(|e: oldHistoryEntry| e@)
}

/// The same record in the current layout: played once.
pub open spec fn converted(old_entry: LegacyEntryView) -> HistoryEntryView {
    HistoryEntryView {
        song_name: old_entry.song_name,
        song_id: old_entry.song_id,
        artist_name: old_entry.artist_name,
        time_stamp: old_entry.time_stamp,
        play_count: 1,
    }
}

impl oldHistoryEntry {
    /// Builds a record of the earlier layout.
    pub fn new(
        song_name: String,
        song_id: String,
        artist_name: Vec<String>,
        time_stamp: u64,
    ) -> (entry: Self)
        ensures
            entry@ == (LegacyEntryView {
                song_name: song_name@,
                song_id: song_id@,
                artist_name: artist_name.deep_view(),
                time_stamp,
            }),
    {
        oldHistoryEntry { song_name, song_id, artist_name, time_stamp }
    }

    /// Brings the record to the current layout, as a track played once.
    pub fn convert(self) -> (entry: HistoryEntry)
        ensures
            entry@ == converted(self@),
    {
        HistoryEntry {
            song_name: self.song_name,
            song_id: self.song_id,
            artist_name: self.artist_name,
            time_stamp: self.time_stamp,
            play_count: 1,
        }
    }
}

/// What can go wrong in the history.
#[derive(Debug)]
pub enum HistoryError {
    /// The store failed.
    DbError(sled::Error),
    /// A record could not be encoded, or stored bytes spell no record.
    SerializationError(bincode::Error),
    /// Any other failure, in words.
    Error(String),
    /// The system clock could not be read.
    Erorr(std::time::SystemTimeError),
}

impl HistoryEntry {
    /// A first play of the track, at the current time.
    ///
    /// Fails only when the clock cannot be read.
    pub fn new(song_name: String, song_id: String, artist_name: Vec<String>) -> (r: Result<
        Self,
        HistoryError,
    >)
        ensures
            r matches Ok(entry) ==> entry@ == (HistoryEntryView {
                song_name: song_name@,
                song_id: song_id@,
                artist_name: artist_name.deep_view(),
                time_stamp: entry@.time_stamp,
                play_count: 1,
            }),
            r matches Err(e) ==> e is Erorr,
    {
        match unix_seconds() {
            Ok(now) => Ok(HistoryEntry::at(song_name, song_id, artist_name, now)),
            Err(e) => Err(HistoryError::Erorr(e)),
        }
    }

    /// A first play of the track, at `time_stamp` seconds since the epoch.
    pub fn at(song_name: String, song_id: String, artist_name: Vec<String>, time_stamp: u64) -> (entry:
        Self)
        ensures
            entry@ == (HistoryEntryView {
                song_name: song_name@,
                song_id: song_id@,
                artist_name: artist_name.deep_view(),
                time_stamp,
                play_count: 1,
            }),
    {
        HistoryEntry { song_name, song_id, artist_name, time_stamp, play_count: 1 }
    }

    /// A first play of `song`, at the current time.
    pub fn from_song(song: Song) -> (r: Result<Self, HistoryError>)
        ensures
            r matches Ok(entry) ==> entry@ == first_play(song@, entry@.time_stamp),
            r matches Err(e) ==> e is Erorr,
    {
        HistoryEntry::new(song.title, song.id, song.artist_name)
    }

    /// A first play of `song`, at `time_stamp` seconds since the epoch.
    pub fn from_song_at(song: Song, time_stamp: u64) -> (entry: Self)
        ensures
            entry@ == first_play(song@, time_stamp),
    {
        HistoryEntry::at(song.title, song.id, song.artist_name, time_stamp)
    }

    /// The track that the entry is about.
    pub fn song(&self) -> (song: Song)
        ensures
            song@ == track_of(self@),
    {
        Song::new(self.song_id.clone(), self.song_name.clone(), clone_names(&self.artist_name))
    }
}

/// The entry that a first play of `song` at `time_stamp` makes.
pub open spec fn first_play(song: crate::song::SongView, time_stamp: u64) -> HistoryEntryView {
    HistoryEntryView {
        song_name: song.title,
        song_id: song.id,
        artist_name: song.artist_name,
        time_stamp,
        play_count: 1,
    }
}

/// The track that an entry is about.
pub open spec fn track_of(entry: HistoryEntryView) -> crate::song::SongView {
    crate::song::SongView {
        id: entry.song_id,
        title: entry.song_name,
        artist_name: entry.artist_name,
    }
}

/// Ranks the most recently played first.
pub open spec fn by_recency() -> spec_fn(HistoryEntryView) -> int {
    |e: HistoryEntryView| -(e.time_stamp as int)
}

/// Ranks the most often played first.
pub open spec fn by_play_count() -> spec_fn(HistoryEntryView) -> int {
    |e: HistoryEntryView| -(e.play_count as int)
}

/// Tells entries apart by the id of their track.
pub open spec fn by_song_id() -> spec_fn(HistoryEntryView) -> Seq<char> {
    |e: HistoryEntryView| e.song_id
}

/// The entry after one more play at `now`.
pub open spec fn replayed(entry: HistoryEntryView, now: u64) -> HistoryEntryView {
    HistoryEntryView {
        song_name: entry.song_name,
        song_id: entry.song_id,
        artist_name: entry.artist_name,
        time_stamp: now,
        play_count: (entry.play_count + 1) as u64,
    }
}

impl HistoryEntry {
    /// Counts one more play, at `now`. `None` when the count cannot grow.
    pub fn replay(self, now: u64) -> (r: Option<HistoryEntry>)
        ensures
            r is Some <==> self@.play_count < u64::MAX,
            r matches Some(entry) ==> entry@ == replayed(self@, now),
    {
        if self.play_count == u64::MAX {
            None
        } else {
            Some(
                HistoryEntry {
                    song_name: self.song_name,
                    song_id: self.song_id,
                    artist_name: self.artist_name,
                    time_stamp: now,
                    play_count: self.play_count + 1,
                },
            )
        }
    }
}

/// The record that a play of `entry` at `now` leaves, given the record
/// that was found for the track: a track on record is counted once more and
/// stamped `now`; another track is one play of it, at the time that `entry`
/// carries.
pub open spec fn played_record(
    on_record: Option<HistoryEntryView>,
    entry: HistoryEntryView,
    now: u64,
) -> HistoryEntryView {
    match on_record {
        Some(earlier) => replayed(earlier, now),
        None => first_play(track_of(entry), entry.time_stamp),
    }
}

impl HistoryEntry {
    /// The record that a play of `entry` at `now` leaves, given the record
    /// that was found for the track. `None` when a count on record cannot
    /// grow; the count that `entry` carries is not looked at.
    pub fn played(on_record: Option<HistoryEntry>, entry: &HistoryEntry, now: u64) -> (r: Option<
        HistoryEntry,
    >)
        ensures
            r is None <==> (on_record matches Some(earlier) && earlier@.play_count == u64::MAX),
            r matches Some(record) ==> record@ == played_record(
                match on_record {
                    Some(earlier) => Some(earlier@),
                    None => None,
                },
                entry@,
                now,
            ),
    {
        match on_record {
            Some(earlier) => earlier.replay(now),
            None => Some(
                HistoryEntry::at(
                    entry.song_name.clone(),
                    entry.song_id.clone(),
                    clone_names(&entry.artist_name),
                    entry.time_stamp,
                ),
            ),
        }
    }
}

/// Whether `a` goes strictly in front of `b`.
fn outranks(a: &HistoryEntry, b: &HistoryEntry, by_count: bool) -> (first: bool)
    ensures
        first == if by_count {
            by_play_count()(a@) < by_play_count()(b@)
        } else {
            by_recency()(a@) < by_recency()(b@)
        },
{
    if by_count {
        a.play_count > b.play_count
    } else {
        a.time_stamp > b.time_stamp
    }
}

/// Ranks `entries`, the largest first: by play count if `by_count`, else by
/// the time of the last play. Entries that tie keep their order.
fn rank_entries(entries: Vec<HistoryEntry>, by_count: bool) -> (ranked: Vec<HistoryEntry>)
    ensures
        entry_views(ranked@) == rank_by(
            entry_views(entries@),
            if by_count {
                by_play_count()
            } else {
                by_recency()
            },
        ),
{
    let ghost all = entry_views(entries@);
    let ghost key = if by_count {
        by_play_count()
    } else {
        by_recency()
    };
    let mut rest = entries;
    let mut ranked: Vec<HistoryEntry> = Vec::new();
    proof {
        assert(all.skip(all.len() as int) =~= Seq::<HistoryEntryView>::empty());
        assert(all.take(all.len() as int) =~= all);
    }
    while rest.len() > 0
        invariant
            rest.len() <= all.len(),
            entry_views(rest@) == all.take(rest.len() as int),
            entry_views(ranked@) == rank_by(all.skip(rest.len() as int), key),
            key == (if by_count {
                by_play_count()
            } else {
                by_recency()
            }),
        decreases rest.len(),
    {
        let ghost n = rest.len() as int;
        let ghost rest_before = rest@;
        let entry = rest.pop().unwrap();
        let ghost before = entry_views(ranked@);
        let mut at: usize = 0;
        while at < ranked.len() && outranks(&ranked[at], &entry, by_count)
            invariant
                at <= ranked.len(),
                before == entry_views(ranked@),
                key == (if by_count {
                    by_play_count()
                } else {
                    by_recency()
                }),
                forall|i: int| 0 <= i < at ==> key(#[trigger] before[i]) < key(entry@),
            decreases ranked.len() - at,
        {
            at += 1;
        }
        proof {
            lemma_insert_point_at(before, key(entry@), key, at as int);
            assert(entry@ == entry_views(rest_before)[n - 1]);
            assert(all.skip(n - 1).drop_first() =~= all.skip(n));
            assert(all.skip(n - 1)[0] == entry@);
            assert(entry_views(rest@) =~= all.take(n - 1));
        }
        ranked.insert(at, entry);
        proof {
            assert(entry_views(ranked@) =~= before.insert(at as int, all[n - 1]));
        }
    }
    ranked
}

/// Ranks `entries` with the most recently played first; entries played at
/// the same second keep their order.
pub fn rank_by_recency(entries: Vec<HistoryEntry>) -> (ranked: Vec<HistoryEntry>)
    ensures
        entry_views(ranked@) == rank_by(entry_views(entries@), by_recency()),
        entry_views(ranked@).to_multiset() == entry_views(entries@).to_multiset(),
        forall|i: int, j: int|
            0 <= i < j < ranked.len() ==> ranked[i].time_stamp >= ranked[j].time_stamp,
{
    proof {
        lemma_rank_by(entry_views(entries@), by_recency());
    }
    let ranked = rank_entries(entries, false);
    proof {
        assert forall|i: int, j: int| 0 <= i < j < ranked.len() implies ranked[i].time_stamp
            >= ranked[j].time_stamp by {
            assert(by_recency()(entry_views(ranked@)[i]) <= by_recency()(entry_views(ranked@)[j]));
        }
    }
    ranked
}

/// Ranks `entries` with the most often played first; entries played equally
/// often keep their order.
pub fn rank_by_play_count(entries: Vec<HistoryEntry>) -> (ranked: Vec<HistoryEntry>)
    ensures
        entry_views(ranked@) == rank_by(entry_views(entries@), by_play_count()),
        entry_views(ranked@).to_multiset() == entry_views(entries@).to_multiset(),
        forall|i: int, j: int|
            0 <= i < j < ranked.len() ==> ranked[i].play_count >= ranked[j].play_count,
{
    proof {
        lemma_rank_by(entry_views(entries@), by_play_count());
    }
    let ranked = rank_entries(entries, true);
    proof {
        assert forall|i: int, j: int| 0 <= i < j < ranked.len() implies ranked[i].play_count
            >= ranked[j].play_count by {
            assert(by_play_count()(entry_views(ranked@)[i]) <= by_play_count()(
                entry_views(ranked@)[j],
            ));
        }
    }
    ranked
}

/// Cuts one page out of `entries`.
pub fn page_entries(entries: Vec<HistoryEntry>, offset: usize, size: usize) -> (page: Vec<
    HistoryEntry,
>)
    ensures
        entry_views(page@) == page_of(entry_views(entries@), offset as int, size as int),
        page.len() <= size,
        page.len() > 0 ==> offset + page.len() <= entries.len(),
        forall|i: int| 0 <= i < page.len() ==> (#[trigger] page[i])@ == entries[offset + i]@,
{
    let ghost all = entries@;
    let page = take_page(entries, offset, size);
    proof {
        assert(entry_views(page@) =~= page_of(entry_views(all), offset as int, size as int));
    }
    page
}

} // verus!
