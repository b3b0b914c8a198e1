use feather::playlist::UserPlaylist;
use feather::playlist_store::{PlaylistManager, PlaylistManagerError};
use feather::song::Song;
use feather::songpage::SongDatabase;
use feather::store::Store;

fn playlists() -> PlaylistManager {
    PlaylistManager::with_store(Store::temporary().expect("a scratch store opens"))
}

fn pages() -> SongDatabase {
    SongDatabase::with_store(Store::temporary().expect("a scratch store opens")).unwrap()
}

fn song(id: &str) -> Song {
    Song::new(id.to_string(), id.to_uppercase(), vec![format!("{id} band")])
}

fn ids(songs: &[Song]) -> Vec<String> {
    songs.iter().map(|s| s.id.clone()).collect()
}

#[test]
fn a_new_playlist_is_empty() {
    let playlist = UserPlaylist::new("Mix".to_string());
    assert_eq!(playlist.name(), "Mix");
    assert_eq!(playlist.next_index(), 0);
    assert_eq!(playlist.len(), 0);
    assert!(playlist.tracks().is_empty());
}

#[test]
fn adding_tracks_appends_them_under_fresh_indices() {
    let mut playlist = UserPlaylist::new("Mix".to_string());
    assert!(playlist.add_song(song("a")));
    assert!(playlist.add_song(song("b")));
    assert_eq!(playlist.len(), 2);
    assert_eq!(playlist.next_index(), 2);
    assert_eq!(ids(&playlist.tracks()), vec!["a", "b"]);
}

#[test]
fn adding_a_track_again_moves_it_to_the_end() {
    let mut playlist = UserPlaylist::new("Mix".to_string());
    for id in ["a", "b", "c"] {
        assert!(playlist.add_song(song(id)));
    }
    assert!(playlist.add_song(song("a")));
    assert_eq!(playlist.len(), 3);
    assert_eq!(playlist.next_index(), 4);
    assert_eq!(ids(&playlist.tracks()), vec!["b", "c", "a"]);
}

#[test]
fn removing_a_track_leaves_the_others_in_order() {
    let mut playlist = UserPlaylist::new("Mix".to_string());
    for id in ["a", "b", "c"] {
        assert!(playlist.add_song(song(id)));
    }
    playlist.remove_song("b");
    playlist.remove_song("not there");
    assert_eq!(playlist.len(), 2);
    assert_eq!(playlist.next_index(), 3);
    assert_eq!(ids(&playlist.tracks()), vec!["a", "c"]);
    assert!(playlist.add_song(song("b")));
    assert_eq!(ids(&playlist.tracks()), vec!["a", "c", "b"]);
}

#[test]
fn road_trip() {
    let mut playlists = playlists();
    playlists.create_playlist("Road Trip").unwrap();
    for id in ["a", "b", "c"] {
        playlists.add_song_to_playlist("Road Trip", song(id)).unwrap();
    }
    let tracks = playlists.get_playlist("Road Trip").unwrap();
    assert_eq!(ids(&tracks), vec!["a", "b", "c"]);
    assert_eq!(tracks[0].title, "A");
    assert_eq!(tracks[0].artist_name, vec!["a band".to_string()]);
    playlists.add_song_to_playlist("Road Trip", song("a")).unwrap();
    assert_eq!(ids(&playlists.get_playlist("Road Trip").unwrap()), vec!["b", "c", "a"]);
    let stored = playlists.get_user_playlist("Road Trip").unwrap();
    assert_eq!(stored.name(), "Road Trip");
    assert_eq!(stored.len(), 3);
    assert_eq!(stored.next_index(), 4);
}

#[test]
fn creating_a_playlist_twice_is_refused() {
    let mut playlists = playlists();
    playlists.create_playlist("Mix").unwrap();
    playlists.add_song_to_playlist("Mix", song("a")).unwrap();
    let r = playlists.create_playlist("Mix");
    assert!(matches!(r, Err(PlaylistManagerError::DuplicatePlaylist(name)) if name == "Mix"));
    assert_eq!(ids(&playlists.get_playlist("Mix").unwrap()), vec!["a"]);
}

#[test]
fn a_missing_playlist_is_reported() {
    let mut playlists = playlists();
    assert!(matches!(
        playlists.add_song_to_playlist("Nope", song("a")),
        Err(PlaylistManagerError::PlaylistNotFound(name)) if name == "Nope"
    ));
    assert!(matches!(
        playlists.remove_song_from_playlist("Nope", "a"),
        Err(PlaylistManagerError::PlaylistNotFound(_))
    ));
    assert!(matches!(
        playlists.get_playlist("Nope"),
        Err(PlaylistManagerError::PlaylistNotFound(_))
    ));
    assert!(matches!(
        playlists.get_user_playlist("Nope"),
        Err(PlaylistManagerError::PlaylistNotFound(_))
    ));
    assert!(matches!(
        playlists.convert_playlist_into("Nope", pages()),
        Err(PlaylistManagerError::PlaylistNotFound(_))
    ));
    assert!(playlists.list_playlists().unwrap().is_empty());
}

#[test]
fn removing_a_track_from_a_stored_playlist() {
    let mut playlists = playlists();
    playlists.create_playlist("Mix").unwrap();
    for id in ["a", "b", "c"] {
        playlists.add_song_to_playlist("Mix", song(id)).unwrap();
    }
    playlists.remove_song_from_playlist("Mix", "b").unwrap();
    assert_eq!(ids(&playlists.get_playlist("Mix").unwrap()), vec!["a", "c"]);
    playlists.remove_song_from_playlist("Mix", "not there").unwrap();
    assert_eq!(ids(&playlists.get_playlist("Mix").unwrap()), vec!["a", "c"]);
}

#[test]
fn playlists_are_listed_by_name() {
    let mut playlists = playlists();
    for name in ["Zebra", "Alpha", "Über"] {
        playlists.create_playlist(name).unwrap();
    }
    assert_eq!(playlists.list_playlists().unwrap(), vec!["Alpha", "Zebra", "Über"]);
    playlists.delete_playlist("Zebra").unwrap();
    playlists.delete_playlist("never there").unwrap();
    assert_eq!(playlists.list_playlists().unwrap(), vec!["Alpha", "Über"]);
    assert!(matches!(
        playlists.get_playlist("Zebra"),
        Err(PlaylistManagerError::PlaylistNotFound(_))
    ));
}

#[test]
fn a_playlist_is_stored_field_by_field() {
    let mut store = Store::temporary().unwrap();
    let rows = vec![
        (5usize, ("x".to_string(), "X".to_string(), vec!["x band".to_string()])),
        (2usize, ("y".to_string(), "Y".to_string(), Vec::<String>::new())),
    ];
    store.insert(b"Mix", bincode::serialize(&("Mix".to_string(), 9usize, rows)).unwrap()).unwrap();
    let mut playlists = PlaylistManager::with_store(store);
    assert_eq!(ids(&playlists.get_playlist("Mix").unwrap()), vec!["y", "x"]);
    let stored = playlists.get_user_playlist("Mix").unwrap();
    assert_eq!(stored.next_index(), 9);
    playlists.add_song_to_playlist("Mix", song("z")).unwrap();
    assert_eq!(ids(&playlists.get_playlist("Mix").unwrap()), vec!["y", "x", "z"]);
    assert_eq!(playlists.get_user_playlist("Mix").unwrap().next_index(), 10);
}

#[test]
fn bytes_that_spell_no_playlist_are_a_serialization_error() {
    let mut store = Store::temporary().unwrap();
    store.insert(b"Mix", vec![1, 2, 3]).unwrap();
    let mut playlists = PlaylistManager::with_store(store);
    assert!(matches!(
        playlists.get_playlist("Mix"),
        Err(PlaylistManagerError::SerializationError(_))
    ));
    assert!(matches!(
        playlists.add_song_to_playlist("Mix", song("a")),
        Err(PlaylistManagerError::SerializationError(_))
    ));
    assert!(matches!(
        playlists.create_playlist("Mix"),
        Err(PlaylistManagerError::DuplicatePlaylist(_))
    ));
}

#[test]
fn a_playlist_without_an_index_left_refuses_tracks() {
    let mut store = Store::temporary().unwrap();
    let rows: Vec<(usize, (String, String, Vec<String>))> = Vec::new();
    store
        .insert(b"Full", bincode::serialize(&("Full".to_string(), usize::MAX, rows)).unwrap())
        .unwrap();
    let mut playlists = PlaylistManager::with_store(store);
    assert!(matches!(
        playlists.add_song_to_playlist("Full", song("a")),
        Err(PlaylistManagerError::AddSongError(track, list)) if track == "a" && list == "Full"
    ));
    assert!(playlists.get_playlist("Full").unwrap().is_empty());
}

#[test]
fn a_playlist_is_laid_out_in_a_page_store() {
    let mut playlists = playlists();
    playlists.create_playlist("Mix").unwrap();
    let names: Vec<String> = (0..25).map(|i| format!("s{i}")).collect();
    for id in &names {
        playlists.add_song_to_playlist("Mix", song(id)).unwrap();
    }
    playlists.add_song_to_playlist("Mix", song("s0")).unwrap();
    let laid_out = playlists.convert_playlist_into("Mix", pages()).unwrap();
    assert_eq!(laid_out.length().unwrap(), 25);
    assert_eq!(laid_out.position(), 25);
    assert_eq!(laid_out.get_song_by_index(0).unwrap().id, "s1");
    assert_eq!(laid_out.get_song_by_index(24).unwrap().id, "s0");
    let expected: Vec<String> = names[1..21].to_vec();
    assert_eq!(ids(&laid_out.next_page(0).unwrap()), expected);
    let mut rest: Vec<String> = names[21..].to_vec();
    rest.push("s0".to_string());
    assert_eq!(ids(&laid_out.next_page(20).unwrap()), rest);

    playlists.remove_song_from_playlist("Mix", "s1").unwrap();
    assert_eq!(laid_out.get_song_by_index(0).unwrap().id, "s1");
    assert_eq!(laid_out.length().unwrap(), 25);
}
