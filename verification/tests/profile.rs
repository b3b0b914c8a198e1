use feather::player::SongPlayer;
use feather::profile::{UserProfile, UserProfileDb, UserProfileError};
use feather::song::Song;
use feather::store::Store;

fn profiles() -> UserProfileDb {
    let store = Store::temporary().expect("a scratch store opens");
    UserProfileDb::with_store(store, UserProfile::new("me".to_string(), "(o_o)".to_string())).unwrap()
}

#[test]
fn a_fresh_profile_has_played_nothing() {
    let profile = profiles().give_info().unwrap();
    assert_eq!(profile.name, "me");
    assert_eq!(profile.pfp, "(o_o)");
    assert!(profile.last_played.is_none());
    assert!(profile.image_url.is_none());
    assert_eq!(profile.songs_played, 0);
    assert_eq!(profile.time_played, 0);
}

#[test]
fn a_profile_on_record_is_kept() {
    let mut store = Store::temporary().unwrap();
    let stored = (
        "old".to_string(),
        Some(("id".to_string(), "Title".to_string(), vec!["A".to_string()])),
        4usize,
        Some("/pic.png".to_string()),
        "art".to_string(),
        99usize,
    );
    store.insert(b"user", bincode::serialize(&stored).unwrap()).unwrap();
    let profiles =
        UserProfileDb::with_store(store, UserProfile::new("new".to_string(), String::new())).unwrap();
    let profile = profiles.give_info().unwrap();
    assert_eq!(profile.name, "old");
    assert_eq!(profile.last_played.unwrap().title, "Title");
    assert_eq!(profile.songs_played, 4);
    assert_eq!(profile.image_url, Some("/pic.png".to_string()));
    assert_eq!(profile.pfp, "art");
    assert_eq!(profile.time_played, 99);
}

#[test]
fn seconds_and_plays_are_counted() {
    let mut profiles = profiles();
    profiles.add_time().unwrap();
    profiles.add_time().unwrap();
    profiles.add_song().unwrap();
    let profile = profiles.give_info().unwrap();
    assert_eq!(profile.time_played, 2);
    assert_eq!(profile.songs_played, 1);
    assert_eq!(profile.name, "me");
}

#[test]
fn listening_time_grows_only_while_playing() {
    let mut profiles = profiles();
    assert_eq!(SongPlayer::add_time(&mut profiles, false).unwrap(), false);
    assert_eq!(profiles.give_info().unwrap().time_played, 0);
    assert_eq!(SongPlayer::add_time(&mut profiles, true).unwrap(), true);
    assert_eq!(SongPlayer::add_time(&mut profiles, true).unwrap(), true);
    assert_eq!(profiles.give_info().unwrap().time_played, 2);
}

#[test]
fn counters_stop_at_the_largest_number() {
    let mut store = Store::temporary().unwrap();
    let stored =
        ("me".to_string(), None::<(String, String, Vec<String>)>, usize::MAX, None::<String>, String::new(), usize::MAX);
    store.insert(b"user", bincode::serialize(&stored).unwrap()).unwrap();
    let mut profiles =
        UserProfileDb::with_store(store, UserProfile::new("x".to_string(), String::new())).unwrap();
    profiles.add_time().unwrap();
    profiles.add_song().unwrap();
    let profile = profiles.give_info().unwrap();
    assert_eq!(profile.time_played, usize::MAX);
    assert_eq!(profile.songs_played, usize::MAX);
}

#[test]
fn the_last_track_played_is_noted() {
    let mut profiles = profiles();
    profiles
        .set_last_played(Song::new("id".to_string(), "Title".to_string(), vec!["A".to_string()]))
        .unwrap();
    let last = profiles.give_info().unwrap().last_played.unwrap();
    assert_eq!(last.id, "id");
    assert_eq!(last.title, "Title");
    assert_eq!(last.artist_name, vec!["A".to_string()]);
}

#[test]
fn the_picture_is_stale_until_drawn_from_the_image_named() {
    let mut profiles = profiles();
    assert_eq!(profiles.check_pfp_change(&None).unwrap(), false);
    assert_eq!(profiles.check_pfp_change(&Some("/a.png".to_string())).unwrap(), true);
    profiles.set_pfp("/a.png".to_string(), "drawn".to_string()).unwrap();
    assert_eq!(profiles.check_pfp_change(&Some("/a.png".to_string())).unwrap(), false);
    assert_eq!(profiles.check_pfp_change(&Some("/b.png".to_string())).unwrap(), true);
    assert_eq!(profiles.check_pfp_change(&None).unwrap(), false);
    let profile = profiles.give_info().unwrap();
    assert_eq!(profile.pfp, "drawn");
    assert_eq!(profile.image_url, Some("/a.png".to_string()));
}

#[test]
fn bytes_that_spell_no_profile_are_a_serialization_error() {
    let mut store = Store::temporary().unwrap();
    store.insert(b"user", vec![1]).unwrap();
    let mut profiles =
        UserProfileDb::with_store(store, UserProfile::new("x".to_string(), String::new())).unwrap();
    assert!(matches!(profiles.give_info(), Err(UserProfileError::SerializationError(_))));
    assert!(matches!(profiles.add_time(), Err(UserProfileError::SerializationError(_))));
    assert!(matches!(profiles.check_pfp_change(&None), Err(UserProfileError::SerializationError(_))));
}
