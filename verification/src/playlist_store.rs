//! The playlist store: [`PlaylistManager`] files each [`UserPlaylist`]
//! under its name and edits it in place, one read and one write per edit.

use crate::codec::{decode_playlist, encode_playlist, playlist_decoding, playlist_encoding};
use crate::playlist::{
    empty_playlist, has_track, lemma_add_present_moves_to_end, playlist_tracks, well_formed,
    with_track, without_track, PlaylistView, UserPlaylist,
};
use crate::song::{song_views, Song, SongView};
use crate::songpage::{holds_tracks, lemma_holds_one_more, SongDatabase, SongError};
use crate::store::{no_pairs, scan_of, Store};
use vstd::prelude::*;
use vstd::utf8::{decode_utf8, encode_utf8, valid_utf8};

verus! {

/// What can go wrong with playlists.
#[derive(Debug)]
pub enum PlaylistManagerError {
    /// The store failed.
    DbError(sled::Error),
    /// A playlist could not be encoded, or stored bytes spell no playlist.
    SerializationError(bincode::Error),
    /// There is no playlist of this name.
    PlaylistNotFound(String),
    /// The track, first, is not in the playlist, second.
    SongNotFound(String, String),
    /// A playlist of this name exists already.
    DuplicatePlaylist(String),
    /// The track, first, could not be added to the playlist, second.
    AddSongError(String, String),
    /// The track, first, could not be removed from the playlist, second.
    RemoveSongError(String, String),
    /// The page store that a playlist was laid out in failed.
    SongError(SongError),
    /// Any other failure, in words.
    Other(String),
}

/// The key under which the playlist `name` is filed.
pub open spec fn playlist_key(name: Seq<char>) -> Seq<u8> {
    encode_utf8(name)
}

/// `store` holds `playlist` under `key`, in bytes that are its encoding and
/// read back as it.
pub open spec fn holds_playlist(
    store: Map<Seq<u8>, Seq<u8>>,
    key: Seq<u8>,
    playlist: PlaylistView,
) -> bool {
    &&& store.contains_key(key)
    &&& playlist_encoding(playlist) == Some(store[key])
    &&& playlist_decoding(store[key]) == Some(playlist)
}

/// `after` differs from `before` at most in what stands under `key`.
pub open spec fn rewrites(
    before: Map<Seq<u8>, Seq<u8>>,
    after: Map<Seq<u8>, Seq<u8>>,
    key: Seq<u8>,
) -> bool {
    after.contains_key(key) && after == before.insert(key, after[key])
}

/// The playlist on record under `name` in `store`, if its bytes spell one.
pub open spec fn playlist_of(store: Map<Seq<u8>, Seq<u8>>, name: Seq<char>) -> Option<
    PlaylistView,
> {
    if store.contains_key(playlist_key(name)) {
        playlist_decoding(store[playlist_key(name)])
    } else {
        None
    }
}

/// Adding `song`: the playlist with the track at its end, or `None` where
/// the playlist has no index left to give.
pub open spec fn adds(song: SongView) -> spec_fn(PlaylistView) -> Option<PlaylistView> {
    |playlist: PlaylistView|
        if playlist.next_index < usize::MAX {
            Some(with_track(playlist, song))
        } else {
            None
        }
}

/// Removing the track `song_id`.
pub open spec fn removes(song_id: Seq<char>) -> spec_fn(PlaylistView) -> Option<PlaylistView> {
    |playlist: PlaylistView| Some(without_track(playlist, song_id))
}

/// `after` is `before` with `playlist` filed under `name`, and nothing else
/// changed.
pub open spec fn files_playlist(
    before: Map<Seq<u8>, Seq<u8>>,
    after: Map<Seq<u8>, Seq<u8>>,
    name: Seq<char>,
    playlist: PlaylistView,
) -> bool {
    rewrites(before, after, playlist_key(name)) && holds_playlist(
        after,
        playlist_key(name),
        playlist,
    )
}

/// What an edit of the playlist `name` by `change` that ended in `r` has
/// made of the store.
/// - On success the playlist on record spelt a playlist, `change` took it,
///   and the changed playlist has its place.
/// - `PlaylistNotFound`, with the name: there is no such playlist.
/// - `AddSongError`, with the playlist's name second: `change` refused the
///   playlist on record.
/// - `SerializationError`: the bytes on record spell no playlist, or the
///   changed playlist cannot be encoded.
/// - `DbError`: the store failed; it is as it was, or as on success.
/// - No other error; after every error but `DbError` the store is as it was.
pub open spec fn edit_outcome(
    before: Map<Seq<u8>, Seq<u8>>,
    after: Map<Seq<u8>, Seq<u8>>,
    name: Seq<char>,
    change: spec_fn(PlaylistView) -> Option<PlaylistView>,
    r: Result<(), PlaylistManagerError>,
) -> bool {
    let edited = match playlist_of(before, name) {
        Some(on_record) => match change(on_record) {
            Some(changed) => files_playlist(before, after, name, changed),
            None => false,
        },
        None => false,
    };
    match r {
        Ok(_) => edited,
        Err(PlaylistManagerError::PlaylistNotFound(missing)) => {
            &&& missing@ == name
            &&& !before.contains_key(playlist_key(name))
            &&& after == before
        },
        Err(PlaylistManagerError::AddSongError(_, list)) => {
            &&& list@ == name
            &&& playlist_of(before, name) matches Some(on_record)
            &&& change(on_record) is None
            &&& after == before
        },
        Err(PlaylistManagerError::SerializationError(_)) => {
            &&& before.contains_key(playlist_key(name))
            &&& after == before
            &&& match playlist_of(before, name) {
                Some(on_record) => match change(on_record) {
                    Some(changed) => playlist_encoding(changed) is None,
                    None => false,
                },
                None => true,
            }
        },
        Err(PlaylistManagerError::DbError(_)) => after == before || edited,
        Err(_) => false,
    }
}

/// What [`PlaylistManager::create_playlist`] that ended in `r` has made of
/// the store.
/// - On success there was no playlist `name`, and the empty playlist of
///   that name is on record.
/// - `DuplicatePlaylist`, with the name: there was such a playlist.
/// - `SerializationError`: the empty playlist cannot be encoded.
/// - `DbError`: the store failed; it is as it was, or as on success.
/// - No other error; after every error but `DbError` the store is as it was.
pub open spec fn create_outcome(
    before: Map<Seq<u8>, Seq<u8>>,
    after: Map<Seq<u8>, Seq<u8>>,
    name: Seq<char>,
    r: Result<(), PlaylistManagerError>,
) -> bool {
    let created = !before.contains_key(playlist_key(name)) && files_playlist(
        before,
        after,
        name,
        empty_playlist(name),
    );
    match r {
        Ok(_) => created,
        Err(PlaylistManagerError::DuplicatePlaylist(taken)) => {
            &&& taken@ == name
            &&& before.contains_key(playlist_key(name))
            &&& after == before
        },
        Err(PlaylistManagerError::SerializationError(_)) => {
            &&& !before.contains_key(playlist_key(name))
            &&& playlist_encoding(empty_playlist(name)) is None
            &&& after == before
        },
        Err(PlaylistManagerError::DbError(_)) => after == before || created,
        Err(_) => false,
    }
}

/// Whether `e` is an error that laying a playlist out in a page store can
/// end in: the playlist store's own, those of reading the playlist, or the
/// page store's failing or refusing a track.
pub open spec fn refuses_layout(e: PlaylistManagerError) -> bool {
    match e {
        PlaylistManagerError::DbError(_) => true,
        PlaylistManagerError::PlaylistNotFound(_) => true,
        PlaylistManagerError::SerializationError(_) => true,
        PlaylistManagerError::SongError(page_error) => page_error is DbError
            || page_error is SerdeError,
        _ => false,
    }
}

/// Adding a track to a stored playlist that has it already leaves the
/// playlist with as many entries as before and with the track last, under
/// the former next index; the stored playlist is well formed again.
pub proof fn lemma_re_add_on_record(
    before: Map<Seq<u8>, Seq<u8>>,
    after: Map<Seq<u8>, Seq<u8>>,
    name: Seq<char>,
    song: SongView,
)
    requires
        edit_outcome(before, after, name, adds(song), Ok::<(), PlaylistManagerError>(())),
        playlist_of(before, name) matches Some(on_record) && well_formed(on_record) && has_track(
            on_record,
            song.id,
        ),
    ensures
        playlist_of(before, name) matches Some(on_record) && playlist_of(after, name) matches Some(
            changed,
        ) && {
            &&& changed == with_track(on_record, song)
            &&& well_formed(changed)
            &&& changed.songs.len() == on_record.songs.len()
            &&& changed.songs.last() == (on_record.next_index, song)
            &&& changed.next_index == on_record.next_index + 1
            &&& playlist_tracks(changed).last() == song
        },
{
    let on_record = playlist_of(before, name).unwrap();
    lemma_add_present_moves_to_end(on_record, song);
}

/// `String::from_utf8_lossy`: the text that `bytes` spell. For bytes that
/// are valid UTF-8 that is their decoding; of other bytes nothing is
/// claimed.
#[verifier::external_body]
fn text_of(bytes: &[u8]) -> (text: String)
    ensures
        valid_utf8(bytes@) ==> text@ == decode_utf8(bytes@),
{
    String::from_utf8_lossy(bytes).into_owned()
}

/// The user's playlists, each filed under its name.
pub struct PlaylistManager {
    db: Store,
}

impl View for PlaylistManager {
    type V = Map<Seq<u8>, Seq<u8>>;

    closed spec fn view(&self) -> Map<Seq<u8>, Seq<u8>> {
        self.db@
    }
}

impl PlaylistManager {
    /// Opens the playlists in the user's data directory.
    pub fn new() -> (r: Result<Self, PlaylistManagerError>)
        ensures
            r matches Err(e) ==> e is DbError,
    {
        match Store::open("/tmp", "Feather", "UserPlaylist_db") {
            Ok(db) => Ok(PlaylistManager { db }),
            Err(e) => Err(PlaylistManagerError::DbError(e)),
        }
    }

    /// Takes `db` as the playlists, with what it holds.
    pub fn with_store(db: Store) -> (playlists: Self)
        ensures
            playlists@ == db@,
    {
        PlaylistManager { db }
    }

    /// Reads the playlist `name`.
    fn load(&self, name: &str) -> (r: Result<UserPlaylist, PlaylistManagerError>)
        ensures
            r matches Ok(playlist) ==> self@.contains_key(playlist_key(name@)) && playlist_decoding(
                self@[playlist_key(name@)],
            ) == Some(playlist@),
            r matches Err(PlaylistManagerError::PlaylistNotFound(missing)) ==> missing@ == name@
                && !self@.contains_key(playlist_key(name@)),
            r matches Err(PlaylistManagerError::SerializationError(_)) ==> self@.contains_key(
                playlist_key(name@),
            ) && playlist_decoding(self@[playlist_key(name@)]) is None,
            r matches Err(e) ==> e is DbError || e is PlaylistNotFound || e is SerializationError,
    {
        match self.db.get(name.as_bytes()) {
            Ok(Some(bytes)) => match decode_playlist(bytes.as_slice()) {
                Ok(playlist) => Ok(playlist),
                Err(e) => Err(PlaylistManagerError::SerializationError(e)),
            },
            Ok(None) => Err(PlaylistManagerError::PlaylistNotFound(name.to_owned())),
            Err(e) => Err(PlaylistManagerError::DbError(e)),
        }
    }

    /// Writes `playlist` under `name` and forces it to disk.
    fn save(&mut self, name: &str, playlist: &UserPlaylist) -> (r: Result<
        (),
        PlaylistManagerError,
    >)
        ensures
            r is Ok ==> rewrites(old(self)@, final(self)@, playlist_key(name@)) && holds_playlist(
                final(self)@,
                playlist_key(name@),
                playlist@,
            ),
            r matches Err(PlaylistManagerError::SerializationError(_)) ==> final(self)@ == old(
                self,
            )@ && playlist_encoding(playlist@) is None,
            r matches Err(PlaylistManagerError::DbError(_)) ==> final(self)@ == old(self)@
                || files_playlist(old(self)@, final(self)@, name@, playlist@),
            r matches Err(e) ==> e is DbError || e is SerializationError,
    {
        let bytes = match encode_playlist(playlist) {
            Ok(bytes) => bytes,
            Err(e) => {
                return Err(PlaylistManagerError::SerializationError(e));
            },
        };
        match self.db.insert(name.as_bytes(), bytes) {
            Ok(()) => {},
            Err(e) => {
                return Err(PlaylistManagerError::DbError(e));
            },
        }
        match self.db.flush() {
            Ok(()) => Ok(()),
            Err(e) => Err(PlaylistManagerError::DbError(e)),
        }
    }

    /// Creates the empty playlist `name`.
    ///
    /// Fails with `DuplicatePlaylist`, and changes nothing, where a
    /// playlist of that name exists.
    pub fn create_playlist(&mut self, name: &str) -> (r: Result<(), PlaylistManagerError>)
        ensures
            create_outcome(old(self)@, final(self)@, name@, r),
    {
        match self.db.get(name.as_bytes()) {
            Ok(Some(_)) => {
                return Err(PlaylistManagerError::DuplicatePlaylist(name.to_owned()));
            },
            Ok(None) => {},
            Err(e) => {
                return Err(PlaylistManagerError::DbError(e));
            },
        }
        let playlist = UserPlaylist::new(name.to_owned());
        self.save(name, &playlist)
    }

    /// Adds `song` to the playlist `playlist_name`, at the end; if the
    /// track is in the playlist already, it moves to the end.
    ///
    /// Fails with `PlaylistNotFound` where there is no such playlist, and
    /// with `AddSongError` where the playlist has no index left to give;
    /// either way nothing changes.
    pub fn add_song_to_playlist(&mut self, playlist_name: &str, song: Song) -> (r: Result<
        (),
        PlaylistManagerError,
    >)
        ensures
            edit_outcome(old(self)@, final(self)@, playlist_name@, adds(song@), r),
            r matches Err(PlaylistManagerError::AddSongError(track, _)) ==> track@ == song@.id,
    {
        let mut playlist = match self.load(playlist_name) {
            Ok(playlist) => playlist,
            Err(e) => {
                return Err(e);
            },
        };
        let track = song.id.clone();
        if !playlist.add_song(song) {
            return Err(PlaylistManagerError::AddSongError(track, playlist_name.to_owned()));
        }
        self.save(playlist_name, &playlist)
    }

    /// Removes the track `song_id` from the playlist `playlist_name`; a
    /// track that is not in the playlist is not missed.
    ///
    /// Fails with `PlaylistNotFound`, and changes nothing, where there is no
    /// such playlist.
    pub fn remove_song_from_playlist(&mut self, playlist_name: &str, song_id: &str) -> (r: Result<
        (),
        PlaylistManagerError,
    >)
        ensures
            edit_outcome(old(self)@, final(self)@, playlist_name@, removes(song_id@), r),
    {
        let mut playlist = match self.load(playlist_name) {
            Ok(playlist) => playlist,
            Err(e) => {
                return Err(e);
            },
        };
        playlist.remove_song(song_id);
        self.save(playlist_name, &playlist)
    }

    /// The names of all playlists, in key order. A key that is not valid
    /// UTF-8 is listed with its faulty bytes replaced.
    pub fn list_playlists(&self) -> (r: Result<Vec<String>, PlaylistManagerError>)
        ensures
            r matches Ok(names) ==> {
                &&& names.len() == scan_of(self@).len()
                &&& forall|i: int|
                    0 <= i < names.len() && valid_utf8(scan_of(self@)[i].0) ==> (#[trigger] names[i])@
                        == decode_utf8(scan_of(self@)[i].0)
            },
            r matches Err(e) ==> e is DbError,
    {
        let pairs = match self.db.entries() {
            Ok(pairs) => pairs,
            Err(e) => {
                return Err(PlaylistManagerError::DbError(e));
            },
        };
        let ghost scan = pairs.deep_view();
        let mut names: Vec<String> = Vec::new();
        let mut i: usize = 0;
        while i < pairs.len()
            invariant
                i <= pairs.len(),
                scan == pairs.deep_view(),
                names.len() == i,
                forall|j: int|
                    0 <= j < i && valid_utf8(scan[j].0) ==> (#[trigger] names[j])@ == decode_utf8(
                        scan[j].0,
                    ),
            decreases pairs.len() - i,
        {
            proof {
                assert(scan[i as int].0 =~= pairs[i as int].0@);
            }
            names.push(text_of(pairs[i].0.as_slice()));
            i += 1;
        }
        Ok(names)
    }

    /// The tracks of the playlist `playlist_name`, by ascending index.
    pub fn get_playlist(&self, playlist_name: &str) -> (r: Result<Vec<Song>, PlaylistManagerError>)
        ensures
            r matches Ok(tracks) ==> {
                &&& self@.contains_key(playlist_key(playlist_name@))
                &&& playlist_decoding(self@[playlist_key(playlist_name@)]) matches Some(playlist)
                &&& song_views(tracks@) == playlist_tracks(playlist)
            },
            r matches Err(PlaylistManagerError::PlaylistNotFound(missing)) ==> missing@
                == playlist_name@ && !self@.contains_key(playlist_key(playlist_name@)),
            r matches Err(PlaylistManagerError::SerializationError(_)) ==> self@.contains_key(
                playlist_key(playlist_name@),
            ) && playlist_decoding(self@[playlist_key(playlist_name@)]) is None,
            r matches Err(e) ==> e is DbError || e is PlaylistNotFound || e is SerializationError,
    {
        match self.load(playlist_name) {
            Ok(playlist) => Ok(playlist.tracks()),
            Err(e) => Err(e),
        }
    }

    /// The playlist `playlist_name` as it is stored.
    pub fn get_user_playlist(&self, playlist_name: &str) -> (r: Result<
        UserPlaylist,
        PlaylistManagerError,
    >)
        ensures
            r matches Ok(playlist) ==> self@.contains_key(playlist_key(playlist_name@))
                && playlist_decoding(self@[playlist_key(playlist_name@)]) == Some(playlist@),
            r matches Err(PlaylistManagerError::PlaylistNotFound(missing)) ==> missing@
                == playlist_name@ && !self@.contains_key(playlist_key(playlist_name@)),
            r matches Err(PlaylistManagerError::SerializationError(_)) ==> self@.contains_key(
                playlist_key(playlist_name@),
            ) && playlist_decoding(self@[playlist_key(playlist_name@)]) is None,
            r matches Err(e) ==> e is DbError || e is PlaylistNotFound || e is SerializationError,
    {
        self.load(playlist_name)
    }

    /// Lays the tracks of the playlist `playlist_name` out in a page store
    /// of their own, in the user's data directory. The page store is a
    /// copy: later edits of the playlist do not reach it. A page store that
    /// does not open, or fails, gives `SongError` with its error.
    pub fn convert_playlist(&self, playlist_name: &str) -> (r: Result<
        SongDatabase,
        PlaylistManagerError,
    >)
        ensures
            r matches Ok(pages) ==> {
                &&& self@.contains_key(playlist_key(playlist_name@))
                &&& playlist_decoding(self@[playlist_key(playlist_name@)]) matches Some(playlist)
                &&& holds_tracks(pages@, playlist_tracks(playlist))
                &&& pages.next_position() == playlist_tracks(playlist).len()
            },
            r matches Err(PlaylistManagerError::PlaylistNotFound(missing)) ==> missing@
                == playlist_name@ && !self@.contains_key(playlist_key(playlist_name@)),
            r matches Err(PlaylistManagerError::SerializationError(_)) ==> self@.contains_key(
                playlist_key(playlist_name@),
            ) && playlist_decoding(self@[playlist_key(playlist_name@)]) is None,
            r matches Err(e) ==> refuses_layout(e),
    {
        match SongDatabase::new("load_playlist") {
            Ok(pages) => self.convert_playlist_into(playlist_name, pages),
            Err(e) => Err(PlaylistManagerError::SongError(e)),
        }
    }

    /// Lays the tracks of the playlist `playlist_name` out in the empty
    /// page store `pages`: track number `i` by index stands under position
    /// `i`.
    pub fn convert_playlist_into(&self, playlist_name: &str, pages: SongDatabase) -> (r: Result<
        SongDatabase,
        PlaylistManagerError,
    >)
        requires
            pages@ == no_pairs(),
            pages.next_position() == 0,
        ensures
            r matches Ok(laid_out) ==> {
                &&& self@.contains_key(playlist_key(playlist_name@))
                &&& playlist_decoding(self@[playlist_key(playlist_name@)]) matches Some(playlist)
                &&& holds_tracks(laid_out@, playlist_tracks(playlist))
                &&& laid_out.next_position() == playlist_tracks(playlist).len()
            },
            r matches Err(PlaylistManagerError::PlaylistNotFound(missing)) ==> missing@
                == playlist_name@ && !self@.contains_key(playlist_key(playlist_name@)),
            r matches Err(PlaylistManagerError::SerializationError(_)) ==> self@.contains_key(
                playlist_key(playlist_name@),
            ) && playlist_decoding(self@[playlist_key(playlist_name@)]) is None,
            r matches Err(e) ==> refuses_layout(e),
    {
        let mut pages = pages;
        let tracks = match self.get_playlist(playlist_name) {
            Ok(tracks) => tracks,
            Err(e) => {
                return Err(e);
            },
        };
        let ghost all = song_views(tracks@);
        let mut i: usize = 0;
        proof {
            assert(all.take(0) =~= Seq::<SongView>::empty());
        }
        while i < tracks.len()
            invariant
                i <= tracks.len(),
                all == song_views(tracks@),
                pages.next_position() == i,
                holds_tracks(pages@, all.take(i as int)),
            decreases tracks.len() - i,
        {
            let ghost before = pages@;
            let song = tracks[i].clone();
            match pages.add_song(song.title, song.id, song.artist_name) {
                Ok(()) => {},
                Err(e) => {
                    return Err(PlaylistManagerError::SongError(e));
                },
            }
            proof {
                lemma_holds_one_more(before, pages@, all.take(i as int), all[i as int]);
                assert(all.take(i + 1) =~= all.take(i as int).push(all[i as int]));
            }
            i += 1;
        }
        proof {
            assert(all.take(tracks.len() as int) =~= all);
        }
        Ok(pages)
    }

    /// Deletes the playlist `playlist_name`; a playlist that does not exist
    /// is not missed.
    pub fn delete_playlist(&mut self, playlist_name: &str) -> (r: Result<(), PlaylistManagerError>)
        ensures
            r is Ok ==> final(self)@ == old(self)@.remove(playlist_key(playlist_name@)),
            r matches Err(e) ==> {
                &&& e is DbError
                &&& final(self)@ == old(self)@ || final(self)@ == old(self)@.remove(
                    playlist_key(playlist_name@),
                )
            },
    {
        match self.db.remove(playlist_name.as_bytes()) {
            Ok(()) => {},
            Err(e) => {
                return Err(PlaylistManagerError::DbError(e));
            },
        }
        match self.db.flush() {
            Ok(()) => Ok(()),
            Err(e) => Err(PlaylistManagerError::DbError(e)),
        }
    }
}

} // verus!
