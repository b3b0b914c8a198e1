//! Byte encodings of the records that the stores persist.
//!
//! History entries, playlists and the profile are written with `bincode`,
//! field after field in declaration order; the tracks of a page store are
//! written with `serde_json`. Neither crate is verified. Each encoding is
//! therefore known here only by name: a function from a record to its bytes,
//! or from bytes to the record they spell, of which this module says no more
//! than that the crate computes it and that decoding undoes encoding.

use crate::history::{oldHistoryEntry, HistoryEntry, HistoryEntryView, LegacyEntryView};
use crate::playlist::{PlaylistView, UserPlaylist};
use crate::profile::{ProfileView, UserProfile};
use crate::song::{Song, SongView};
use vstd::prelude::*;

verus! {

#[verifier::external_type_specification]
#[verifier::external_body]
pub struct ExBincodeErrorKind(bincode::ErrorKind);

#[verifier::external_type_specification]
#[verifier::external_body]
pub struct ExJsonError(serde_json::Error);

/// The bytes that `bincode::serialize` gives for a history entry's fields,
/// or `None` where it refuses them.
pub uninterp spec fn entry_encoding(entry: HistoryEntryView) -> Option<Seq<u8>>;

/// The history entry that `bincode::deserialize` reads from `bytes`, or
/// `None` where it finds none.
pub uninterp spec fn entry_decoding(bytes: Seq<u8>) -> Option<HistoryEntryView>;

/// The entry of the earlier layout, without a play count, that
/// `bincode::deserialize` reads from `bytes`, or `None` where it finds none.
pub uninterp spec fn legacy_decoding(bytes: Seq<u8>) -> Option<LegacyEntryView>;

/// The bytes that `bincode::serialize` gives for a list of entries of the
/// earlier layout, or `None` where it refuses them.
pub uninterp spec fn backup_encoding(entries: Seq<LegacyEntryView>) -> Option<Seq<u8>>;

/// `bincode::serialize` on the five fields of `entry`: the result is the
/// named encoding, and decoding the bytes gives the entry back.
#[verifier::external_body]
pub(crate) fn encode_entry(entry: &HistoryEntry) -> (r: Result<Vec<u8>, bincode::Error>)
    ensures
        r matches Ok(bytes) ==> entry_encoding(entry@) == Some(bytes@) && entry_decoding(bytes@)
            == Some(entry@),
        r is Err ==> entry_encoding(entry@) is None,
{
    bincode::serialize(
        &(&entry.song_name, &entry.song_id, &entry.artist_name, entry.time_stamp, entry.play_count),
    )
}

/// `bincode::deserialize` to the five fields of a history entry: the result
/// is the named decoding.
#[verifier::external_body]
pub(crate) fn decode_entry(bytes: &[u8]) -> (r: Result<HistoryEntry, bincode::Error>)
    ensures
        r matches Ok(entry) ==> entry_decoding(bytes@) == Some(entry@),
        r is Err ==> entry_decoding(bytes@) is None,
{
    match bincode::deserialize::<(String, String, Vec<String>, u64, u64)>(bytes) {
        Ok((song_name, song_id, artist_name, time_stamp, play_count)) => Ok(
            HistoryEntry { song_name, song_id, artist_name, time_stamp, play_count },
        ),
        Err(e) => Err(e),
    }
}

/// `bincode::deserialize` to the four fields of the earlier layout: the
/// result is the named decoding.
#[verifier::external_body]
pub(crate) fn decode_legacy(bytes: &[u8]) -> (r: Result<oldHistoryEntry, bincode::Error>)
    ensures
        r matches Ok(entry) ==> legacy_decoding(bytes@) == Some(entry@),
        r is Err ==> legacy_decoding(bytes@) is None,
{
    match bincode::deserialize::<(String, String, Vec<String>, u64)>(bytes) {
        Ok((song_name, song_id, artist_name, time_stamp)) => Ok(
            oldHistoryEntry { song_name, song_id, artist_name, time_stamp },
        ),
        Err(e) => Err(e),
    }
}

/// `bincode::serialize` on a list of entries of the earlier layout, each as
/// its four fields: the result is the named encoding.
#[verifier::external_body]
pub(crate) fn encode_backup(entries: &Vec<oldHistoryEntry>) -> (r: Result<Vec<u8>, bincode::Error>)
    ensures
        r matches Ok(bytes) ==> backup_encoding(crate::history::legacy_views(entries@)) == Some(
            bytes@,
        ),
        r is Err ==> backup_encoding(crate::history::legacy_views(entries@)) is None,
{
    let rows: Vec<(&String, &String, &Vec<String>, u64)> = entries.iter().map(
        |e| (&e.song_name, &e.song_id, &e.artist_name, e.time_stamp),
    ).collect();
    bincode::serialize(&rows)
}

/// The bytes that `serde_json::to_vec` gives for a track's id, title and
/// artists, or `None` where it refuses them.
pub uninterp spec fn song_encoding(song: SongView) -> Option<Seq<u8>>;

/// The track that `serde_json::from_slice` reads from `bytes`, or `None`
/// where it finds none.
pub uninterp spec fn song_decoding(bytes: Seq<u8>) -> Option<SongView>;

/// `serde_json::to_vec` on the id, title and artists of `song`: the result
/// is the named encoding, and decoding the bytes gives the track back.
#[verifier::external_body]
pub(crate) fn encode_song(song: &Song) -> (r: Result<Vec<u8>, serde_json::Error>)
    ensures
        r matches Ok(bytes) ==> song_encoding(song@) == Some(bytes@) && song_decoding(bytes@)
            == Some(song@),
        r is Err ==> song_encoding(song@) is None,
{
    serde_json::to_vec(&(&song.id, &song.title, &song.artist_name))
}

/// `serde_json::from_slice` to the id, title and artists of a track: the
/// result is the named decoding.
#[verifier::external_body]
pub(crate) fn decode_song(bytes: &[u8]) -> (r: Result<Song, serde_json::Error>)
    ensures
        r matches Ok(song) ==> song_decoding(bytes@) == Some(song@),
        r is Err ==> song_decoding(bytes@) is None,
{
    match serde_json::from_slice::<(String, String, Vec<String>)>(bytes) {
        Ok((id, title, artist_name)) => Ok(Song { id, title, artist_name }),
        Err(e) => Err(e),
    }
}

/// The bytes that `bincode::serialize` gives for a playlist's name, next
/// index and entries, or `None` where it refuses them.
pub uninterp spec fn playlist_encoding(playlist: PlaylistView) -> Option<Seq<u8>>;

/// The playlist that `bincode::deserialize` reads from `bytes`, or `None`
/// where it finds none.
pub uninterp spec fn playlist_decoding(bytes: Seq<u8>) -> Option<PlaylistView>;

/// `bincode::serialize` on the name, the next index and the entries of
/// `playlist`, each entry as its index and its track's id, title and
/// artists: the result is the named encoding, and decoding the bytes gives
/// the playlist back.
#[verifier::external_body]
pub(crate) fn encode_playlist(playlist: &UserPlaylist) -> (r: Result<Vec<u8>, bincode::Error>)
    ensures
        r matches Ok(bytes) ==> playlist_encoding(playlist@) == Some(bytes@) && playlist_decoding(
            bytes@,
        ) == Some(playlist@),
        r is Err ==> playlist_encoding(playlist@) is None,
{
    let rows: Vec<(usize, (&String, &String, &Vec<String>))> = playlist.songs.iter().map(
        |(index, song)| (*index, (&song.id, &song.title, &song.artist_name)),
    ).collect();
    bincode::serialize(&(&playlist.playlist_name, playlist.max_index, rows))
}

/// `bincode::deserialize` to the name, the next index and the entries of a
/// playlist: the result is the named decoding.
#[verifier::external_body]
pub(crate) fn decode_playlist(bytes: &[u8]) -> (r: Result<UserPlaylist, bincode::Error>)
    ensures
        r matches Ok(playlist) ==> playlist_decoding(bytes@) == Some(playlist@),
        r is Err ==> playlist_decoding(bytes@) is None,
{
    match bincode::deserialize::<(String, usize, Vec<(usize, (String, String, Vec<String>))>)>(
        bytes,
    ) {
        Ok((playlist_name, max_index, rows)) => Ok(
            UserPlaylist {
                playlist_name,
                max_index,
                songs: rows.into_iter().map(
                    |(index, (id, title, artist_name))| (index, Song { id, title, artist_name }),
                ).collect(),
            },
        ),
        Err(e) => Err(e),
    }
}

/// The bytes that `bincode::serialize` gives for a profile's fields, or
/// `None` where it refuses them.
pub uninterp spec fn profile_encoding(profile: ProfileView) -> Option<Seq<u8>>;

/// The profile that `bincode::deserialize` reads from `bytes`, or `None`
/// where it finds none.
pub uninterp spec fn profile_decoding(bytes: Seq<u8>) -> Option<ProfileView>;

/// `bincode::serialize` on the six fields of `profile`, the last track as
/// its id, title and artists: the result is the named encoding, and
/// decoding the bytes gives the profile back.
#[verifier::external_body]
pub(crate) fn encode_profile(profile: &UserProfile) -> (r: Result<Vec<u8>, bincode::Error>)
    ensures
        r matches Ok(bytes) ==> profile_encoding(profile@) == Some(bytes@) && profile_decoding(
            bytes@,
        ) == Some(profile@),
        r is Err ==> profile_encoding(profile@) is None,
{
    let last = profile.last_played.as_ref().map(|s| (&s.id, &s.title, &s.artist_name));
    bincode::serialize(
        &(
            &profile.name,
            last,
            profile.songs_played,
            &profile.image_url,
            &profile.pfp,
            profile.time_played,
        ),
    )
}

/// `bincode::deserialize` to the six fields of a profile: the result is the
/// named decoding.
#[verifier::external_body]
pub(crate) fn decode_profile(bytes: &[u8]) -> (r: Result<UserProfile, bincode::Error>)
    ensures
        r matches Ok(profile) ==> profile_decoding(bytes@) == Some(profile@),
        r is Err ==> profile_decoding(bytes@) is None,
{
    match bincode::deserialize::<
        (String, Option<(String, String, Vec<String>)>, usize, Option<String>, String, usize),
    >(bytes) {
        Ok((name, last, songs_played, image_url, pfp, time_played)) => Ok(
            UserProfile {
                name,
                last_played: last.map(|(id, title, artist_name)| Song { id, title, artist_name }),
                songs_played,
                image_url,
                pfp,
                time_played,
            },
        ),
        Err(e) => Err(e),
    }
}

} // verus!
