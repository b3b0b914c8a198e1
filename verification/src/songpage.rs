//! The song page store: a transient list of tracks, each filed under its
//! position, read back one page at a time. A search result or a playlist is
//! laid out in one while it is browsed or played.

use crate::codec::{decode_song, encode_song, song_decoding, song_encoding};
use crate::keys::{
    decimal_of, key_position, lemma_bytes_lt_irreflexive, lemma_decimal_round_trip, position_key,
    position_of_key,
};
use crate::ranking::{
    distinct_by, lemma_filter_map_total, lemma_rank_by, lemma_rank_by_distinct, page_of, rank_by,
};
use crate::song::{by_position, placed_views, rank_by_position, song_views, tracks_of, Song, SongView};
use crate::store::{is_scan_of, lemma_scan_of, no_pairs, scan_of, Store};
use vstd::prelude::*;

verus! {

#[verifier::external_type_specification]
#[verifier::external_body]
pub struct ExIoError(std::io::Error);

/// How many tracks one page holds at most.
pub const PAGE_SIZE: usize = 20;

/// What can go wrong in a song page store.
#[derive(Debug)]
pub enum SongError {
    /// The store failed.
    DbError(sled::Error),
    /// A track could not be encoded, or stored bytes spell no track.
    SerdeError(serde_json::Error),
    /// A key is not text.
    Utf8Error,
    /// Stale files of an earlier store could not be removed.
    FileExist(std::io::Error),
    /// No track is filed under the position asked for.
    SongNotFound,
}

/// Reads a stored pair as a placed track: the position that its key stands
/// for, and the track that its value spells, if it spells one.
pub open spec fn pair_placed() -> spec_fn((Seq<u8>, Seq<u8>)) -> Option<(usize, SongView)> {
    |pair: (Seq<u8>, Seq<u8>)|
        match song_decoding(pair.1) {
            Some(song) => Some((position_of_key(pair.0), song)),
            None => None,
        }
}

/// The placed tracks of a store, in key order. Values that spell no track
/// are passed over.
pub open spec fn placed_of(store: Map<Seq<u8>, Seq<u8>>) -> Seq<(usize, SongView)> {
    scan_of(store).filter_map(pair_placed())
}

/// Whether a placed track lies on the page that starts at `offset`.
pub open spec fn on_page(offset: usize) -> spec_fn((usize, SongView)) -> bool {
    |placed: (usize, SongView)| offset <= placed.0 && placed.0 - offset < PAGE_SIZE
}

/// The tracks on the page that starts at `offset`: those whose position is
/// at least `offset` and less than [`PAGE_SIZE`] beyond it, by ascending
/// position. Positions that no track fills leave no gap in the page.
pub open spec fn page_tracks(store: Map<Seq<u8>, Seq<u8>>, offset: usize) -> Seq<SongView> {
    tracks_of(rank_by(placed_of(store), by_position()).filter(on_page(offset)))
}

/// `after` is `before` with `song` filed under the decimal key of
/// `position`, in bytes that are its encoding and read back as it; nothing
/// else has changed.
pub open spec fn files_track(
    before: Map<Seq<u8>, Seq<u8>>,
    after: Map<Seq<u8>, Seq<u8>>,
    position: usize,
    song: SongView,
) -> bool {
    let key = decimal_of(position as nat);
    &&& after.contains_key(key)
    &&& after == before.insert(key, after[key])
    &&& song_encoding(song) == Some(after[key])
    &&& song_decoding(after[key]) == Some(song)
}

/// `store` holds exactly `tracks`: track number `i` under the decimal key
/// of `i`, in bytes that are its encoding and read back as it.
pub open spec fn holds_tracks(store: Map<Seq<u8>, Seq<u8>>, tracks: Seq<SongView>) -> bool {
    &&& forall|k: Seq<u8>| #[trigger]
        store.contains_key(k) ==> exists|i: nat| i < tracks.len() && k == #[trigger] decimal_of(i)
    &&& forall|i: nat|
        i < tracks.len() ==> {
            &&& store.contains_key(#[trigger] decimal_of(i))
            &&& song_encoding(tracks[i as int]) == Some(store[decimal_of(i)])
            &&& song_decoding(store[decimal_of(i)]) == Some(tracks[i as int])
        }
}

/// Filing one more track under the next position extends what a store
/// holds by that track.
pub proof fn lemma_holds_one_more(
    before: Map<Seq<u8>, Seq<u8>>,
    after: Map<Seq<u8>, Seq<u8>>,
    tracks: Seq<SongView>,
    song: SongView,
)
    requires
        holds_tracks(before, tracks),
        after.contains_key(decimal_of(tracks.len())),
        after == before.insert(decimal_of(tracks.len()), after[decimal_of(tracks.len())]),
        song_encoding(song) == Some(after[decimal_of(tracks.len())]),
        song_decoding(after[decimal_of(tracks.len())]) == Some(song),
    ensures
        holds_tracks(after, tracks.push(song)),
{
    let n = tracks.len();
    let more = tracks.push(song);
    assert forall|i: nat| i < more.len() implies {
        &&& after.contains_key(#[trigger] decimal_of(i))
        &&& song_encoding(more[i as int]) == Some(after[decimal_of(i)])
        &&& song_decoding(after[decimal_of(i)]) == Some(more[i as int])
    } by {
        if i < n {
            lemma_decimal_round_trip(i);
            lemma_decimal_round_trip(n);
            assert(decimal_of(i) != decimal_of(n));
        }
    }
    assert forall|k: Seq<u8>| #[trigger] after.contains_key(k) implies exists|i: nat|
        i < more.len() && k == #[trigger] decimal_of(i) by {
        if k == decimal_of(n) {
            assert(n < more.len() && k == decimal_of(n));
        } else {
            assert(before.contains_key(k));
            let i = choose|i: nat| i < tracks.len() && k == #[trigger] decimal_of(i);
            assert(i < more.len() && k == decimal_of(i));
        }
    }
}

/// In a run of placed tracks whose positions climb, stay below `n` and
/// leave out none below `n`, the track at index `i` has position `i`.
proof fn lemma_position_at(ranked: Seq<(usize, SongView)>, n: nat, i: int)
    requires
        forall|a: int, b: int| 0 <= a < b < ranked.len() ==> ranked[a].0 < ranked[b].0,
        forall|a: int| 0 <= a < ranked.len() ==> (#[trigger] ranked[a]).0 < n,
        forall|p: nat| p < n ==> #[trigger] is_filled(ranked, p),
        0 <= i < ranked.len(),
    ensures
        ranked[i].0 == i,
    decreases i,
{
    if i > 0 {
        lemma_position_at(ranked, n, i - 1);
        assert(ranked[i - 1].0 < ranked[i].0);
    }
    assert(ranked[i].0 < n);
    assert(is_filled(ranked, i as nat));
    let j = choose|j: int| 0 <= j < ranked.len() && (#[trigger] ranked[j]).0 == i;
    if j < i {
        lemma_position_at(ranked, n, j);
    } else if j > i {
        assert(ranked[i].0 < ranked[j].0);
    }
}

/// Whether some track of `placed` stands at position `p`.
pub open spec fn is_filled(placed: Seq<(usize, SongView)>, p: nat) -> bool {
    exists|j: int| 0 <= j < placed.len() && (#[trigger] placed[j]).0 == p
}

/// In a run of tracks that stand at their own index, the first `k` that
/// lie on the page at `offset` are one stretch of the run.
proof fn lemma_window_filter(s: Seq<(usize, SongView)>, offset: usize, k: int)
    requires
        forall|i: int| 0 <= i < s.len() ==> (#[trigger] s[i]).0 == i,
        0 <= k <= s.len(),
    ensures
        s.take(k).filter(on_page(offset)) == s.subrange(
            if offset < k {
                offset as int
            } else {
                k
            },
            if offset + PAGE_SIZE < k {
                offset + PAGE_SIZE
            } else {
                k
            },
        ),
    decreases k,
{
    let lo = if offset < k {
        offset as int
    } else {
        k
    };
    let hi = if offset + PAGE_SIZE < k {
        offset + PAGE_SIZE
    } else {
        k
    };
    if k == 0 {
        assert(s.take(0) =~= Seq::<(usize, SongView)>::empty());
        Seq::<(usize, SongView)>::empty().lemma_filter_len(on_page(offset));
        assert(s.take(0).filter(on_page(offset)) =~= s.subrange(0, 0));
    } else {
        lemma_window_filter(s, offset, k - 1);
        assert(s.take(k) =~= s.take(k - 1).push(s[k - 1]));
        Seq::lemma_filter_push(s.take(k - 1), s[k - 1], on_page(offset));
        assert(s[k - 1].0 == k - 1);
        let lo_before = if offset < k - 1 {
            offset as int
        } else {
            k - 1
        };
        let hi_before = if offset + PAGE_SIZE < k - 1 {
            offset + PAGE_SIZE
        } else {
            k - 1
        };
        if on_page(offset)(s[k - 1]) {
            assert(s.subrange(lo_before, hi_before).push(s[k - 1]) =~= s.subrange(lo, hi));
        } else {
            assert(s.subrange(lo_before, hi_before) =~= s.subrange(lo, hi));
        }
    }
}

/// On a store that holds exactly `tracks`, the page at `offset` is the
/// window of `tracks` that starts at `offset`: whole while the tracks last,
/// shorter at their end, and empty beyond it. `scan` is the store read in
/// key order.
pub proof fn lemma_page_is_window(
    store: Map<Seq<u8>, Seq<u8>>,
    scan: Seq<(Seq<u8>, Seq<u8>)>,
    tracks: Seq<SongView>,
    offset: usize,
)
    requires
        is_scan_of(scan, store),
        holds_tracks(store, tracks),
        tracks.len() <= usize::MAX,
    ensures
        page_tracks(store, offset) == page_of(tracks, offset as int, PAGE_SIZE as int),
{
    let n = tracks.len();
    lemma_scan_of(scan, store);
    let placed = placed_of(store);
    // Every record spells a track, so every record is placed.
    assert forall|j: int| 0 <= j < scan.len() implies pair_placed()(#[trigger] scan[j]) is Some by {
        assert(store.contains_key(scan[j].0));
        let i = choose|i: nat| i < n && scan[j].0 == #[trigger] decimal_of(i);
        assert(song_decoding(store[decimal_of(i)]) == Some(tracks[i as int]));
    }
    lemma_filter_map_total(scan, pair_placed());
    assert forall|j: int| 0 <= j < placed.len() implies (#[trigger] placed[j]).0 < n
        && placed[j].1 == tracks[placed[j].0 as int] && scan[j].0 == decimal_of(
        placed[j].0 as nat,
    ) by {
        assert(store.contains_key(scan[j].0));
        let i = choose|i: nat| i < n && scan[j].0 == #[trigger] decimal_of(i);
        assert(song_decoding(store[decimal_of(i)]) == Some(tracks[i as int]));
        lemma_decimal_round_trip(i);
        assert(placed[j] == pair_placed()(scan[j]).unwrap());
    }
    assert forall|a: int, b: int| 0 <= a < b < placed.len() implies by_position()(placed[a])
        != by_position()(placed[b]) by {
        if placed[a].0 == placed[b].0 {
            assert(scan[a].0 == scan[b].0);
            lemma_bytes_lt_irreflexive(scan[a].0);
        }
    }
    assert(distinct_by(placed, by_position()));
    let ranked = rank_by(placed, by_position());
    lemma_rank_by(placed, by_position());
    lemma_rank_by_distinct(placed, by_position(), by_position());
    placed.to_multiset_ensures();
    ranked.to_multiset_ensures();
    assert forall|a: int| 0 <= a < ranked.len() implies (#[trigger] ranked[a]).0 < n
        && ranked[a].1 == tracks[ranked[a].0 as int] by {
        assert(ranked.to_multiset().count(ranked[a]) > 0);
        assert(placed.contains(ranked[a]));
        let j = choose|j: int| 0 <= j < placed.len() && placed[j] == ranked[a];
        assert(placed[j].0 < n);
    }
    assert forall|a: int, b: int| 0 <= a < b < ranked.len() implies ranked[a].0
        < ranked[b].0 by {
        assert(by_position()(ranked[a]) <= by_position()(ranked[b]));
        assert(by_position()(ranked[a]) != by_position()(ranked[b]));
    }
    assert forall|p: nat| p < n implies #[trigger] is_filled(ranked, p) by {
        assert(store.contains_key(decimal_of(p)));
        let j = choose|j: int| 0 <= j < scan.len() && #[trigger] scan[j].0 == decimal_of(p);
        lemma_decimal_round_trip(p);
        lemma_decimal_round_trip(placed[j].0 as nat);
        assert(placed[j].0 == p);
        assert(placed.to_multiset().count(placed[j]) > 0);
        assert(ranked.contains(placed[j]));
        let r = choose|r: int| 0 <= r < ranked.len() && ranked[r] == placed[j];
        assert(ranked[r].0 == p);
    }
    assert forall|i: int| 0 <= i < ranked.len() implies (#[trigger] ranked[i]).0 == i by {
        lemma_position_at(ranked, n, i);
    }
    if n > 0 {
        assert(is_filled(ranked, (n - 1) as nat));
        let last = choose|j: int| 0 <= j < ranked.len() && (#[trigger] ranked[j]).0 == n - 1;
        assert(ranked[last].0 == last);
    }
    if ranked.len() > 0 {
        assert(ranked[ranked.len() - 1].0 < n);
    }
    assert(ranked.len() == n);
    lemma_window_filter(ranked, offset, n as int);
    assert(ranked.take(n as int) =~= ranked);
    assert(page_tracks(store, offset) =~= page_of(tracks, offset as int, PAGE_SIZE as int));
}

/// The tracks among `placed` whose position lies on the page that starts
/// at `offset`, by ascending position; tracks of equal position keep their
/// order.
pub fn page_from(placed: Vec<(usize, Song)>, offset: usize) -> (page: Vec<Song>)
    ensures
        song_views(page@) == tracks_of(
            rank_by(placed_views(placed@), by_position()).filter(on_page(offset)),
        ),
{
    let ranked = rank_by_position(placed);
    let ghost all = placed_views(ranked@);
    let mut page: Vec<Song> = Vec::new();
    let mut j: usize = 0;
    proof {
        assert(all.take(0) =~= Seq::<(usize, SongView)>::empty());
        Seq::<(usize, SongView)>::empty().lemma_filter_len(on_page(offset));
        assert(song_views(page@) =~= tracks_of(all.take(0).filter(on_page(offset))));
    }
    while j < ranked.len()
        invariant
            j <= ranked.len(),
            all == placed_views(ranked@),
            song_views(page@) == tracks_of(all.take(j as int).filter(on_page(offset))),
        decreases ranked.len() - j,
    {
        let ghost before = song_views(page@);
        let ghost seen = all.take(j as int);
        proof {
            assert(all.take(j + 1) =~= seen.push(all[j as int]));
            Seq::lemma_filter_push(seen, all[j as int], on_page(offset));
        }
        if ranked[j].0 >= offset && ranked[j].0 - offset < PAGE_SIZE {
            let song = ranked[j].1.clone();
            page.push(song);
            proof {
                assert(song_views(page@) =~= before.push(all[j as int].1));
                assert(tracks_of(seen.filter(on_page(offset)).push(all[j as int])) =~= tracks_of(
                    seen.filter(on_page(offset)),
                ).push(all[j as int].1));
            }
        }
        j += 1;
    }
    proof {
        assert(all.take(ranked.len() as int) =~= all);
    }
    page
}

/// A transient, position-keyed list of tracks.
pub struct SongDatabase {
    pub db: Store,
    current_index: usize,
}

impl View for SongDatabase {
    type V = Map<Seq<u8>, Seq<u8>>;

    closed spec fn view(&self) -> Map<Seq<u8>, Seq<u8>> {
        self.db@
    }
}

impl SongDatabase {
    /// The position that the next track added will take.
    pub closed spec fn next_position(&self) -> usize {
        self.current_index
    }

    /// Opens the page store `name` in the user's data directory and empties
    /// it of whatever an earlier session left there. The store's files are
    /// removed when it is dropped.
    pub fn new(name: &str) -> (r: Result<Self, SongError>)
        ensures
            r matches Ok(pages) ==> pages@ == no_pairs() && pages.next_position() == 0
                && holds_tracks(pages@, Seq::empty()),
            r matches Err(e) ==> e is DbError,
    {
        match Store::open_scratch("/tmp", "Feather", name) {
            Ok(db) => SongDatabase::with_store(db),
            Err(e) => Err(SongError::DbError(e)),
        }
    }

    /// Takes `db` as a page store and empties it.
    pub fn with_store(db: Store) -> (r: Result<Self, SongError>)
        ensures
            r matches Ok(pages) ==> pages@ == no_pairs() && pages.next_position() == 0
                && holds_tracks(pages@, Seq::empty()),
            r matches Err(e) ==> e is DbError,
    {
        let mut db = db;
        match db.clear() {
            Ok(()) => Ok(SongDatabase { db, current_index: 0 }),
            Err(e) => Err(SongError::DbError(e)),
        }
    }

    /// The position that the next track added will take.
    pub fn position(&self) -> (next: usize)
        ensures
            next == self.next_position(),
    {
        self.current_index
    }

    /// Files a track under the next position.
    ///
    /// On success the track stands under the decimal key of the position,
    /// in bytes that read back as it, and the next position is one further.
    /// On failure the next position is as before. `SerdeError` says that
    /// the track cannot be encoded, and leaves the store as it was; where
    /// the store fails, the track is filed all the same, or the store is as
    /// it was.
    pub fn add_song(&mut self, title: String, id: String, artist_name: Vec<String>) -> (r: Result<
        (),
        SongError,
    >)
        requires
            old(self).next_position() < usize::MAX,
        ensures
            r is Ok ==> final(self).next_position() == old(self).next_position() + 1 && files_track(
                old(self)@,
                final(self)@,
                old(self).next_position(),
                SongView { id: id@, title: title@, artist_name: artist_name.deep_view() },
            ),
            r is Err ==> final(self).next_position() == old(self).next_position(),
            r matches Err(SongError::SerdeError(_)) ==> final(self)@ == old(self)@ && song_encoding(
                SongView { id: id@, title: title@, artist_name: artist_name.deep_view() },
            ) is None,
            r matches Err(SongError::DbError(_)) ==> final(self)@ == old(self)@ || files_track(
                old(self)@,
                final(self)@,
                old(self).next_position(),
                SongView { id: id@, title: title@, artist_name: artist_name.deep_view() },
            ),
            r matches Err(e) ==> e is DbError || e is SerdeError,
    {
        let song = Song::new(id, title, artist_name);
        let key = position_key(self.current_index);
        let value = match encode_song(&song) {
            Ok(value) => value,
            Err(e) => {
                return Err(SongError::SerdeError(e));
            },
        };
        match self.db.insert(key.as_slice(), value) {
            Ok(()) => {
                self.current_index += 1;
                Ok(())
            },
            Err(e) => Err(SongError::DbError(e)),
        }
    }

    /// The track filed under position `index`.
    pub fn get_song_by_index(&self, index: usize) -> (r: Result<Song, SongError>)
        ensures
            r matches Ok(song) ==> self@.contains_key(decimal_of(index as nat)) && song_decoding(
                self@[decimal_of(index as nat)],
            ) == Some(song@),
            r matches Err(SongError::SongNotFound) ==> !self@.contains_key(decimal_of(index as nat)),
            r matches Err(SongError::SerdeError(_)) ==> self@.contains_key(
                decimal_of(index as nat),
            ) && song_decoding(self@[decimal_of(index as nat)]) is None,
            r matches Err(e) ==> e is DbError || e is SongNotFound || e is SerdeError,
    {
        let key = position_key(index);
        match self.db.get(key.as_slice()) {
            Ok(Some(value)) => match decode_song(value.as_slice()) {
                Ok(song) => Ok(song),
                Err(e) => Err(SongError::SerdeError(e)),
            },
            Ok(None) => Err(SongError::SongNotFound),
            Err(e) => Err(SongError::DbError(e)),
        }
    }

    /// The tracks on the page that starts at position `offset`.
    pub fn next_page(&self, offset: usize) -> (r: Result<Vec<Song>, SongError>)
        ensures
            r matches Ok(page) ==> song_views(page@) == page_tracks(self@, offset) && is_scan_of(
                scan_of(self@),
                self@,
            ),
            r matches Err(e) ==> e is DbError,
    {
        let pairs = match self.db.entries() {
            Ok(pairs) => pairs,
            Err(e) => {
                return Err(SongError::DbError(e));
            },
        };
        let ghost scan = pairs.deep_view();
        let mut placed: Vec<(usize, Song)> = Vec::new();
        let mut i: usize = 0;
        while i < pairs.len()
            invariant
                i <= pairs.len(),
                scan == pairs.deep_view(),
                placed_views(placed@) == scan.take(i as int).filter_map(pair_placed()),
            decreases pairs.len() - i,
        {
            let ghost before = placed_views(placed@);
            proof {
                scan.lemma_filter_map_take_succ(pair_placed(), i as int);
                assert(scan[i as int].0 =~= pairs[i as int].0@);
                assert(scan[i as int].1 =~= pairs[i as int].1@);
            }
            match decode_song(pairs[i].1.as_slice()) {
                Ok(song) => {
                    let position = key_position(pairs[i].0.as_slice());
                    let ghost item = (position, song@);
                    placed.push((position, song));
                    proof {
                        assert(placed_views(placed@) =~= before + seq![item]);
                    }
                },
                Err(_) => {},
            }
            i += 1;
        }
        proof {
            assert(scan.take(pairs.len() as int) =~= scan);
        }
        Ok(page_from(placed, offset))
    }

    /// How many records the store holds.
    pub fn length(&self) -> (r: Result<usize, SongError>)
        ensures
            r matches Ok(n) ==> n == scan_of(self@).len(),
            r matches Err(e) ==> e is DbError,
    {
        match self.db.len() {
            Ok(n) => Ok(n),
            Err(e) => Err(SongError::DbError(e)),
        }
    }

    /// Forces pending writes to disk. The contents are unchanged.
    pub fn flush(&self) -> (r: Result<(), SongError>)
        ensures
            r matches Err(e) ==> e is DbError,
    {
        match self.db.flush() {
            Ok(()) => Ok(()),
            Err(e) => Err(SongError::DbError(e)),
        }
    }
}

} // verus!
