//! Playlists: named, ordered collections of tracks.
//!
//! Every entry of a playlist carries an index. Indices are handed out in
//! increasing order and never reused, so the order of the entries does not
//! depend on how they are stored. A track occurs at most once: adding a
//! track that is already there moves it to the end.

use crate::ranking::{
    distinct_by, is_climbing, is_ranked, lemma_filter_keeps, lemma_filter_one_out,
    lemma_rank_by_ranked, rank_by,
};
use crate::song::{
    by_position, placed_views, rank_by_position, song_views, tracks_of, Song, SongView,
};
use vstd::prelude::*;

verus! {

/// A named, ordered collection of tracks.
#[derive(Debug)]
pub struct UserPlaylist {
    pub(crate) playlist_name: String,
    pub(crate) max_index: usize,
    pub(crate) songs: Vec<(usize, Song)>,
}

/// What a [`UserPlaylist`] is, as plain values: its name, the index that
/// the next entry will get, and its entries with their indices.
pub struct PlaylistView {
    pub name: Seq<char>,
    pub next_index: usize,
    pub songs: Seq<(usize, SongView)>,
}

impl View for UserPlaylist {
    type V = PlaylistView;

    closed spec fn view(&self) -> PlaylistView {
        PlaylistView {
            name: self.playlist_name@,
            next_index: self.max_index,
            songs: placed_views(self.songs@),
        }
    }
}

/// Passes the entries whose track is not `id`.
pub open spec fn other_than(id: Seq<char>) -> spec_fn((usize, SongView)) -> bool {
    |entry: (usize, SongView)| entry.1.id != id
}

/// Tells entries apart by the id of their track.
pub open spec fn by_track_id() -> spec_fn((usize, SongView)) -> Seq<char> {
    |entry: (usize, SongView)| entry.1.id
}

/// The playlist `name` with no entries.
pub open spec fn empty_playlist(name: Seq<char>) -> PlaylistView {
    PlaylistView { name, next_index: 0, songs: Seq::empty() }
}

/// The playlist after `song` is added: any entry of the same track is
/// dropped, and the track is appended under the next index.
pub open spec fn with_track(playlist: PlaylistView, song: SongView) -> PlaylistView {
    PlaylistView {
        name: playlist.name,
        next_index: (playlist.next_index + 1) as usize,
        songs: playlist.songs.filter(other_than(song.id)).push((playlist.next_index, song)),
    }
}

/// The playlist after the track `id` is removed.
pub open spec fn without_track(playlist: PlaylistView, id: Seq<char>) -> PlaylistView {
    PlaylistView {
        name: playlist.name,
        next_index: playlist.next_index,
        songs: playlist.songs.filter(other_than(id)),
    }
}

/// The tracks of the playlist, by ascending index.
pub open spec fn playlist_tracks(playlist: PlaylistView) -> Seq<SongView> {
    tracks_of(rank_by(playlist.songs, by_position()))
}

/// Whether the track `id` is in the playlist.
pub open spec fn has_track(playlist: PlaylistView, id: Seq<char>) -> bool {
    exists|i: int| 0 <= i < playlist.songs.len() && by_track_id()(playlist.songs[i]) == id
}

/// What every playlist built by [`UserPlaylist::new`],
/// [`UserPlaylist::add_song`] and [`UserPlaylist::remove_song`] satisfies:
/// no track occurs twice, the indices climb along the entries, and all lie
/// below the next index.
pub open spec fn well_formed(playlist: PlaylistView) -> bool {
    &&& distinct_by(playlist.songs, by_track_id())
    &&& is_climbing(playlist.songs, by_position())
    &&& forall|i: int|
        0 <= i < playlist.songs.len() ==> by_position()(#[trigger] playlist.songs[i])
            < playlist.next_index
}

/// A new playlist is well formed, and adding and removing tracks keeps a
/// playlist well formed.
pub proof fn lemma_well_formed_kept(playlist: PlaylistView, song: SongView, id: Seq<char>)
    requires
        well_formed(playlist),
    ensures
        well_formed(empty_playlist(playlist.name)),
        well_formed(without_track(playlist, id)),
        playlist.next_index < usize::MAX ==> well_formed(with_track(playlist, song)),
{
    lemma_filter_keeps(playlist.songs, other_than(id), by_position(), by_track_id());
    let kept = playlist.songs.filter(other_than(id));
    assert forall|i: int| 0 <= i < kept.len() implies by_position()(#[trigger] kept[i])
        < playlist.next_index by {
        assert(playlist.songs.contains(kept[i]));
        let m = choose|m: int| 0 <= m < playlist.songs.len() && playlist.songs[m] == kept[i];
        assert(by_position()(playlist.songs[m]) < playlist.next_index);
    }
    if playlist.next_index < usize::MAX {
        lemma_filter_keeps(playlist.songs, other_than(song.id), by_position(), by_track_id());
        let rest = playlist.songs.filter(other_than(song.id));
        let out = with_track(playlist, song).songs;
        assert forall|i: int| 0 <= i < rest.len() implies by_position()(#[trigger] rest[i])
            < playlist.next_index by {
            assert(playlist.songs.contains(rest[i]));
            let m = choose|m: int| 0 <= m < playlist.songs.len() && playlist.songs[m] == rest[i];
            assert(by_position()(playlist.songs[m]) < playlist.next_index);
        }
        assert forall|i: int, j: int| 0 <= i < j < out.len() implies by_track_id()(out[i])
            != by_track_id()(out[j]) && by_position()(out[i]) < by_position()(out[j]) by {
            assert(out[i] == rest[i]);
            assert(other_than(song.id)(rest[i]));
            if j < rest.len() {
                assert(out[j] == rest[j]);
            }
        }
        assert forall|i: int| 0 <= i < out.len() implies by_position()(#[trigger] out[i])
            < with_track(playlist, song).next_index by {
            if i < rest.len() {
                assert(out[i] == rest[i]);
            }
        }
    }
}

/// Adding a track that is already in the playlist leaves the number of
/// entries as it was and puts the track last, under the former next index,
/// which is above every other. The other entries are the old ones without
/// that track, with their indices and in their order; no other entry is of
/// that track. The next index grows by one, and the track is the last of
/// the playlist's tracks.
pub proof fn lemma_add_present_moves_to_end(playlist: PlaylistView, song: SongView)
    requires
        well_formed(playlist),
        has_track(playlist, song.id),
    ensures
        with_track(playlist, song).songs.len() == playlist.songs.len(),
        with_track(playlist, song).songs.last() == (playlist.next_index, song),
        forall|i: int|
            0 <= i < with_track(playlist, song).songs.len() - 1 ==> {
                &&& (#[trigger] with_track(playlist, song).songs[i]).0 < playlist.next_index
                &&& with_track(playlist, song).songs[i].1.id != song.id
            },
        with_track(playlist, song).songs.drop_last() == playlist.songs.filter(
            other_than(song.id),
        ),
        playlist.next_index < usize::MAX ==> {
            &&& with_track(playlist, song).next_index == playlist.next_index + 1
            &&& well_formed(with_track(playlist, song))
            &&& playlist_tracks(with_track(playlist, song)).len() == playlist.songs.len()
            &&& playlist_tracks(with_track(playlist, song)).last() == song
        },
{
    assert(with_track(playlist, song).songs.drop_last() =~= playlist.songs.filter(
        other_than(song.id),
    ));
    if playlist.next_index < usize::MAX {
        lemma_well_formed_kept(playlist, song, song.id);
        lemma_tracks_in_entry_order(with_track(playlist, song));
    }
    lemma_filter_one_out(playlist.songs, other_than(song.id), by_track_id(), song.id);
    lemma_filter_keeps(playlist.songs, other_than(song.id), by_position(), by_track_id());
    let rest = playlist.songs.filter(other_than(song.id));
    let out = with_track(playlist, song).songs;
    assert forall|i: int| 0 <= i < out.len() - 1 implies (#[trigger] out[i]).0
        < playlist.next_index && out[i].1.id != song.id by {
        assert(out[i] == rest[i]);
        assert(other_than(song.id)(rest[i]));
        assert(playlist.songs.contains(rest[i]));
        let m = choose|m: int| 0 <= m < playlist.songs.len() && playlist.songs[m] == rest[i];
        assert(by_position()(playlist.songs[m]) < playlist.next_index);
    }
}

/// Adding a track that is not in the playlist appends it and leaves the
/// other entries as they were.
pub proof fn lemma_add_absent_appends(playlist: PlaylistView, song: SongView)
    requires
        well_formed(playlist),
        !has_track(playlist, song.id),
    ensures
        with_track(playlist, song).songs == playlist.songs.push((playlist.next_index, song)),
{
    lemma_filter_one_out(playlist.songs, other_than(song.id), by_track_id(), song.id);
    lemma_filter_whole(playlist.songs, other_than(song.id));
}

/// A filter that drops nothing changes nothing.
proof fn lemma_filter_whole<T>(s: Seq<T>, keep: spec_fn(T) -> bool)
    requires
        s.filter(keep).len() == s.len(),
    ensures
        s.filter(keep) == s,
    decreases s.len(),
{
    reveal(Seq::filter);
    if s.len() > 0 {
        s.drop_last().lemma_filter_len(keep);
        lemma_filter_whole(s.drop_last(), keep);
        assert(s.filter(keep) =~= s);
    }
}

/// The tracks of a well-formed playlist are its entries in the order in
/// which they stand.
pub proof fn lemma_tracks_in_entry_order(playlist: PlaylistView)
    requires
        well_formed(playlist),
    ensures
        playlist_tracks(playlist) == tracks_of(playlist.songs),
{
    assert(is_ranked(playlist.songs, by_position()));
    lemma_rank_by_ranked(playlist.songs, by_position());
}

impl UserPlaylist {
    /// An empty playlist called `playlist_name`.
    pub fn new(playlist_name: String) -> (playlist: Self)
        ensures
            playlist@ == empty_playlist(playlist_name@),
    {
        let playlist = Self { playlist_name, max_index: 0, songs: Vec::new() };
        assert(playlist@.songs =~= Seq::<(usize, SongView)>::empty());
        playlist
    }

    /// The playlist's name.
    pub fn name(&self) -> (name: &String)
        ensures
            name@ == self@.name,
    {
        &self.playlist_name
    }

    /// The index that the next entry will get.
    pub fn next_index(&self) -> (next: usize)
        ensures
            next == self@.next_index,
    {
        self.max_index
    }

    /// The number of entries.
    pub fn len(&self) -> (n: usize)
        ensures
            n == self@.songs.len(),
    {
        self.songs.len()
    }

    /// The entries other than those of the track `id`, in order.
    fn entries_without(&self, id: &str) -> (kept: Vec<(usize, Song)>)
        ensures
            placed_views(kept@) == self@.songs.filter(other_than(id@)),
    {
        let ghost all = placed_views(self.songs@);
        let gone: String = id.to_owned();
        let mut kept: Vec<(usize, Song)> = Vec::new();
        let mut i: usize = 0;
        proof {
            assert(all.take(0) =~= Seq::<(usize, SongView)>::empty());
            Seq::<(usize, SongView)>::empty().lemma_filter_len(other_than(id@));
            assert(placed_views(kept@) =~= all.take(0).filter(other_than(id@)));
        }
        while i < self.songs.len()
            invariant
                i <= self.songs.len(),
                all == placed_views(self.songs@),
                gone@ == id@,
                placed_views(kept@) == all.take(i as int).filter(other_than(id@)),
            decreases self.songs.len() - i,
        {
            let ghost before = placed_views(kept@);
            proof {
                assert(all.take(i + 1) =~= all.take(i as int).push(all[i as int]));
                Seq::lemma_filter_push(all.take(i as int), all[i as int], other_than(id@));
            }
            if !(self.songs[i].1.id == gone) {
                let song = self.songs[i].1.clone();
                kept.push((self.songs[i].0, song));
                proof {
                    assert(placed_views(kept@) =~= before.push(all[i as int]));
                }
            }
            i += 1;
        }
        proof {
            assert(all.take(self.songs.len() as int) =~= all);
        }
        kept
    }

    /// Adds `song` at the end. An entry of the same track is dropped first,
    /// so the track moves to the end. Returns `false`, and changes nothing,
    /// when no index is left to give.
    pub fn add_song(&mut self, song: Song) -> (added: bool)
        ensures
            added <==> old(self)@.next_index < usize::MAX,
            added ==> final(self)@ == with_track(old(self)@, song@),
            !added ==> final(self)@ == old(self)@,
    {
        if self.max_index == usize::MAX {
            return false;
        }
        let mut kept = self.entries_without(song.id.as_str());
        let ghost rest = placed_views(kept@);
        kept.push((self.max_index, song));
        proof {
            assert(placed_views(kept@) =~= rest.push((self.max_index, song@)));
        }
        self.songs = kept;
        self.max_index += 1;
        true
    }

    /// Removes the track `id`; a track that is not there is not missed.
    pub fn remove_song(&mut self, id: &str)
        ensures
            final(self)@ == without_track(old(self)@, id@),
    {
        self.songs = self.entries_without(id);
    }

    /// The tracks, by ascending index.
    pub fn tracks(&self) -> (tracks: Vec<Song>)
        ensures
            song_views(tracks@) == playlist_tracks(self@),
    {
        let mut entries: Vec<(usize, Song)> = Vec::new();
        let mut k: usize = 0;
        while k < self.songs.len()
            invariant
                k <= self.songs.len(),
                entries.len() == k,
                forall|j: int|
                    0 <= j < k ==> entries[j].0 == self.songs[j].0 && entries[j].1@
                        == self.songs[j].1@,
            decreases self.songs.len() - k,
        {
            entries.push((self.songs[k].0, self.songs[k].1.clone()));
            k += 1;
        }
        proof {
            assert(placed_views(entries@) =~= placed_views(self.songs@));
        }
        let ranked = rank_by_position(entries);
        let mut tracks: Vec<Song> = Vec::new();
        let mut i: usize = 0;
        while i < ranked.len()
            invariant
                i <= ranked.len(),
                tracks.len() == i,
                forall|j: int| 0 <= j < i ==> tracks[j]@ == ranked[j].1@,
            decreases ranked.len() - i,
        {
            tracks.push(ranked[i].1.clone());
            i += 1;
        }
        proof {
            assert(song_views(tracks@) =~= tracks_of(placed_views(ranked@)));
        }
        tracks
    }
}

} // verus!
