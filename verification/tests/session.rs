use feather::history::HistoryEntry;
use feather::history_store::HistoryDB;
use feather::player::{Confirmation, KeyAction, PlayerKey, SongPlayer};
use feather::history::HistoryError;
use feather::session::{
    target_index, Backend, BackendError, Direction, PlayOutcome, SongDetails, SongState,
    CONFIRM_IDLE_POLLS, END_IDLE_POLLS,
};
use feather::song::Song;
use feather::songpage::{SongDatabase, SongError};
use feather::store::Store;

fn history() -> HistoryDB {
    HistoryDB::with_store(Store::temporary().expect("a scratch store opens")).unwrap().0
}

fn song(id: &str) -> Song {
    Song::new(id.to_string(), format!("Title {id}"), vec!["Artist".to_string()])
}

fn playlist(n: usize) -> SongDatabase {
    let mut pages =
        SongDatabase::with_store(Store::temporary().expect("a scratch store opens")).unwrap();
    for i in 0..n {
        pages.add_song(format!("Title {i}"), format!("id{i}"), vec![]).unwrap();
    }
    pages
}

fn url(id: &str) -> String {
    format!("https://youtube.com/watch?v={id}")
}

/// Plays the playlist from `start` and lets the player take the request.
fn playing(n: usize, start: usize, history: &mut HistoryDB) -> Backend {
    let mut backend = Backend::new();
    backend.play_playlist(playlist(n), start).unwrap();
    assert_eq!(backend.play_issued(PlayOutcome::Played, history, 1).unwrap(), true);
    backend
}

#[test]
fn a_new_session_is_idle() {
    let backend = Backend::new();
    assert_eq!(backend.state(), SongState::Idle);
    assert!(backend.current_song().is_none());
    assert!(!backend.is_playlist_mode());
    assert_eq!(backend.current_playlist_index(), None);
    assert!(backend.details().is_none());
    assert_eq!(backend.epoch(), 0);
    assert!(backend.loop_player());
}

#[test]
fn playing_a_track_from_idle() {
    let mut history = history();
    let mut backend = Backend::new();
    let request = backend.play_music(song("A"), false);
    assert_eq!(backend.state(), SongState::Loading);
    assert_eq!(request.url, url("A"));
    assert!(request.loop_track);
    assert!(backend.current_song().is_none());

    let mode = backend.play_issued(PlayOutcome::Played, &mut history, 500).unwrap();
    assert!(!mode);
    assert_eq!(backend.state(), SongState::Loading);
    assert_eq!(backend.current_song().unwrap().id, "A");
    assert!(!backend.is_playlist_mode());

    let mut watch = SongPlayer::check_playing(&backend);
    assert_eq!(watch.poll(&mut backend, false), Confirmation::Waiting);
    assert_eq!(backend.state(), SongState::Loading);
    assert_eq!(watch.poll(&mut backend, true), Confirmation::Confirmed);
    assert_eq!(backend.state(), SongState::Playing);
    assert_eq!(watch.poll(&mut backend, true), Confirmation::Waiting);

    let top = history.top_played(1).unwrap();
    assert_eq!(top.len(), 1);
    assert_eq!(top[0].song_id, "A");
    assert_eq!(top[0].song_name, "Title A");
    assert_eq!(top[0].play_count, 1);
    assert_eq!(top[0].time_stamp, 500);
}

#[test]
fn the_latest_request_wins() {
    let mut history = history();
    let mut backend = Backend::new();
    backend.play_music(song("A"), false);
    let stale = SongPlayer::check_playing(&backend);
    let request = backend.play_music(song("B"), false);
    assert_eq!(request.url, url("B"));
    assert_eq!(backend.state(), SongState::Loading);
    assert_eq!(backend.epoch(), 2);
    backend.play_issued(PlayOutcome::Played, &mut history, 9).unwrap();
    assert_eq!(backend.current_song().unwrap().id, "B");
    let entries = history.entries().unwrap();
    assert_eq!(entries.len(), 1);
    assert_eq!(entries[0].song_id, "B");

    let mut stale = stale;
    assert_eq!(stale.poll(&mut backend, true), Confirmation::Superseded);
    assert_eq!(backend.state(), SongState::Loading);
    let mut fresh = SongPlayer::check_playing(&backend);
    assert_eq!(fresh.poll(&mut backend, true), Confirmation::Confirmed);
    assert_eq!(backend.state(), SongState::Playing);
}

#[test]
fn a_refused_track_puts_the_session_in_error() {
    let mut history = history();
    let mut backend = Backend::new();
    backend.play_music(song("A"), false);
    let r = backend.play_issued(PlayOutcome::PlayFailed, &mut history, 1);
    assert!(matches!(r, Err(BackendError::Mpv(_))));
    assert_eq!(backend.state(), SongState::ErrorPlayingoSong);
    assert!(backend.current_song().is_none());
    assert!(history.entries().unwrap().is_empty());
}

#[test]
fn a_refused_repeat_flag_puts_the_session_in_error() {
    let mut history = history();
    let mut backend = Backend::new();
    backend.play_music(song("A"), false);
    let r = backend.play_issued(PlayOutcome::LoopFailed, &mut history, 1);
    assert!(matches!(r, Err(BackendError::Mpv(_))));
    assert_eq!(backend.state(), SongState::ErrorPlayingoSong);
    assert_eq!(backend.current_song().unwrap().id, "A");
    assert_eq!(history.entries().unwrap().len(), 1);
}

#[test]
fn an_outcome_without_a_request_is_refused() {
    let mut history = history();
    let mut backend = Backend::new();
    let r = backend.play_issued(PlayOutcome::Played, &mut history, 1);
    assert!(matches!(r, Err(BackendError::PlaybackError(_))));
    assert_eq!(backend.state(), SongState::Idle);
    backend.play_music(song("A"), false);
    backend.play_issued(PlayOutcome::Played, &mut history, 1).unwrap();
    let again = backend.play_issued(PlayOutcome::Played, &mut history, 2);
    assert!(matches!(again, Err(BackendError::PlaybackError(_))));
    assert_eq!(history.entries().unwrap()[0].play_count, 1);
}

#[test]
fn a_history_that_cannot_record_is_reported() {
    let mut history = history();
    history.db.insert(b"A", vec![9, 9, 9]).unwrap();
    let mut backend = Backend::new();
    backend.play_music(song("A"), false);
    let r = backend.play_issued(PlayOutcome::Played, &mut history, 1);
    assert!(matches!(r, Err(BackendError::HistoryError(_))));
    assert_eq!(backend.current_song().unwrap().id, "A");
    assert_eq!(backend.state(), SongState::Loading);
}

#[test]
fn a_replayed_track_is_counted_again() {
    let mut history = history();
    history.add_entry_at(&HistoryEntry::from_song_at(song("A"), 10), 10).unwrap();
    let mut backend = Backend::new();
    backend.play_music(song("A"), false);
    backend.play_issued(PlayOutcome::Played, &mut history, 70).unwrap();
    let entries = history.entries().unwrap();
    assert_eq!(entries.len(), 1);
    assert_eq!(entries[0].play_count, 2);
    assert_eq!(entries[0].time_stamp, 70);
}

#[test]
fn playing_a_playlist_starts_at_the_index_given() {
    let mut history = history();
    let mut backend = Backend::new();
    let request = backend.play_playlist(playlist(4), 2).unwrap();
    assert_eq!(request.url, url("id2"));
    assert!(!request.loop_track);
    assert_eq!(backend.state(), SongState::Loading);
    assert_eq!(backend.current_playlist_index(), Some(2));
    assert!(!backend.is_playlist_mode());
    assert!(backend.play_issued(PlayOutcome::Played, &mut history, 3).unwrap());
    assert!(backend.is_playlist_mode());
    assert!(!backend.loop_player());
    assert_eq!(backend.current_song().unwrap().id, "id2");
    assert_eq!(backend.current_playlist_index(), Some(2));
}

#[test]
fn a_playlist_without_the_track_asked_for_plays_nothing() {
    let mut backend = Backend::new();
    let r = backend.play_playlist(playlist(2), 5);
    assert!(matches!(r, Err(BackendError::PlaylistError(SongError::SongNotFound))));
    assert_eq!(backend.state(), SongState::Idle);
    assert_eq!(backend.current_playlist_index(), Some(5));
    assert_eq!(backend.epoch(), 0);
}

#[test]
fn next_wraps_round_after_as_many_steps_as_tracks() {
    let mut history = history();
    for length in 1..5usize {
        for start in 0..length {
            let mut backend = playing(length, start, &mut history);
            for step in 1..=length {
                let request = backend.advance(Direction::Next).unwrap().unwrap();
                let at = (start + step) % length;
                assert_eq!(backend.current_playlist_index(), Some(at));
                assert_eq!(request.url, url(&format!("id{at}")));
            }
            assert_eq!(backend.current_playlist_index(), Some(start));
        }
    }
}

#[test]
fn previous_stops_at_the_first_track() {
    let mut history = history();
    let mut backend = playing(3, 2, &mut history);
    let request = backend.prev_song_playlist().unwrap().unwrap();
    assert_eq!(request.url, url("id1"));
    assert_eq!(backend.current_playlist_index(), Some(1));
    backend.prev_song_playlist().unwrap().unwrap();
    assert_eq!(backend.current_playlist_index(), Some(0));
    let request = backend.advance(Direction::Previous).unwrap().unwrap();
    assert_eq!(request.url, url("id0"));
    assert!(!request.loop_track);
    assert_eq!(backend.current_playlist_index(), Some(0));
    assert_eq!(backend.state(), SongState::Loading);
}

#[test]
fn advancing_without_a_playlist_or_in_an_empty_one_does_nothing() {
    let mut backend = Backend::new();
    assert!(backend.advance(Direction::Next).unwrap().is_none());
    assert!(backend.advance(Direction::Previous).unwrap().is_none());
    assert_eq!(backend.state(), SongState::Idle);
    assert_eq!(backend.epoch(), 0);

    let r = backend.play_playlist(playlist(0), 0);
    assert!(matches!(r, Err(BackendError::PlaylistError(SongError::SongNotFound))));
    assert!(backend.next_song_playlist().unwrap().is_none());
    assert!(backend.prev_song_playlist().unwrap().is_none());
    assert_eq!(backend.current_playlist_index(), Some(0));
    assert_eq!(backend.state(), SongState::Idle);
}

#[test]
fn a_gap_in_the_playlist_leaves_the_session_where_it_was() {
    let mut history = history();
    let mut pages = playlist(3);
    pages.db.remove(b"1").unwrap();
    let mut backend = Backend::new();
    backend.play_playlist(pages, 0).unwrap();
    backend.play_issued(PlayOutcome::Played, &mut history, 1).unwrap();
    let epoch = backend.epoch();
    let r = backend.next_song_playlist();
    assert!(matches!(r, Err(BackendError::PlaylistError(SongError::SongNotFound))));
    assert_eq!(backend.current_playlist_index(), Some(0));
    assert_eq!(backend.epoch(), epoch);
}

#[test]
fn dropping_the_playlist_leaves_playlist_mode() {
    let mut history = history();
    let mut backend = playing(3, 1, &mut history);
    assert!(!backend.drop_playlist());
    assert!(!backend.is_playlist_mode());
    assert_eq!(backend.current_playlist_index(), None);
    assert!(backend.next_song_playlist().unwrap().is_none());
    assert_eq!(backend.current_song().unwrap().id, "id1");
}

#[test]
fn a_single_track_ends_playlist_mode() {
    let mut history = history();
    let mut backend = playing(3, 1, &mut history);
    backend.play_music(song("solo"), false);
    assert!(backend.is_playlist_mode());
    assert!(!backend.play_issued(PlayOutcome::Played, &mut history, 5).unwrap());
    assert!(!backend.is_playlist_mode());
    assert_eq!(backend.current_playlist_index(), None);
    assert!(backend.advance(Direction::Next).unwrap().is_none());
}

#[test]
fn the_playlist_moves_on_when_its_track_has_ended() {
    let mut history = history();
    let mut backend = playing(3, 0, &mut history);
    let mut confirmer = SongPlayer::check_playing(&backend);
    assert_eq!(confirmer.poll(&mut backend, true), Confirmation::Confirmed);
    let mut watch = SongPlayer::new();
    assert!(watch.observe_song_end(&mut backend, true).unwrap().is_none());
    for _ in 1..END_IDLE_POLLS {
        assert!(watch.observe_song_end(&mut backend, false).unwrap().is_none());
        assert_eq!(backend.current_playlist_index(), Some(0));
    }
    let request = watch.observe_song_end(&mut backend, false).unwrap().unwrap();
    assert_eq!(request.url, url("id1"));
    assert!(!request.loop_track);
    assert_eq!(backend.current_playlist_index(), Some(1));
    assert_eq!(backend.state(), SongState::Loading);
    assert_eq!(confirmer.poll(&mut backend, false), Confirmation::Superseded);

    for _ in 0..10 {
        assert!(watch.observe_song_end(&mut backend, false).unwrap().is_none());
    }
    assert_eq!(backend.current_playlist_index(), Some(1));
}

#[test]
fn the_end_watch_starts_over_when_the_player_plays() {
    let mut history = history();
    let mut backend = playing(3, 0, &mut history);
    backend.confirm_playing();
    let mut watch = SongPlayer::new();
    assert!(watch.observe_song_end(&mut backend, false).unwrap().is_none());
    assert!(watch.observe_song_end(&mut backend, false).unwrap().is_none());
    assert!(watch.observe_song_end(&mut backend, true).unwrap().is_none());
    assert!(watch.observe_song_end(&mut backend, false).unwrap().is_none());
    assert!(watch.observe_song_end(&mut backend, false).unwrap().is_none());
    assert!(watch.observe_song_end(&mut backend, false).unwrap().is_some());
}

#[test]
fn the_end_watch_waits_while_a_track_is_loading() {
    let mut history = history();
    let mut backend = playing(3, 0, &mut history);
    assert_eq!(backend.state(), SongState::Loading);
    let mut watch = SongPlayer::new();
    for _ in 0..6 {
        assert!(watch.observe_song_end(&mut backend, false).unwrap().is_none());
    }
    assert_eq!(backend.current_playlist_index(), Some(0));
    backend.confirm_playing();
    assert!(watch.observe_song_end(&mut backend, false).unwrap().is_some());
    assert_eq!(backend.current_playlist_index(), Some(1));
}

#[test]
fn the_end_watch_idles_outside_playlist_mode() {
    let mut history = history();
    let mut backend = Backend::new();
    backend.play_music(song("A"), false);
    backend.play_issued(PlayOutcome::Played, &mut history, 1).unwrap();
    backend.confirm_playing();
    let mut watch = SongPlayer::new();
    for _ in 0..10 {
        assert!(watch.observe_song_end(&mut backend, false).unwrap().is_none());
    }
    assert_eq!(backend.state(), SongState::Playing);
}

#[test]
fn a_track_that_never_plays_lapses_to_idle() {
    let mut history = history();
    let mut backend = Backend::new();
    backend.play_music(song("A"), false);
    backend.play_issued(PlayOutcome::Played, &mut history, 1).unwrap();
    let mut watch = SongPlayer::check_playing(&backend);
    for _ in 1..CONFIRM_IDLE_POLLS {
        assert_eq!(watch.poll(&mut backend, false), Confirmation::Waiting);
        assert_eq!(backend.state(), SongState::Loading);
    }
    assert_eq!(watch.poll(&mut backend, false), Confirmation::Lapsed);
    assert_eq!(backend.state(), SongState::Idle);
    assert!(backend.details().is_none());
}

#[test]
fn a_track_that_stops_lapses_to_idle_and_loses_its_details() {
    let mut history = history();
    let mut backend = Backend::new();
    backend.play_music(song("A"), false);
    backend.play_issued(PlayOutcome::Played, &mut history, 1).unwrap();
    let mut watch = SongPlayer::check_playing(&backend);
    assert_eq!(watch.poll(&mut backend, true), Confirmation::Confirmed);
    backend.show_details(215, 80, false);
    assert!(backend.details().is_some());
    for _ in 0..4 {
        assert_eq!(watch.poll(&mut backend, false), Confirmation::Waiting);
    }
    assert_eq!(watch.poll(&mut backend, true), Confirmation::Waiting);
    for _ in 1..CONFIRM_IDLE_POLLS {
        assert_eq!(watch.poll(&mut backend, false), Confirmation::Waiting);
    }
    assert_eq!(backend.state(), SongState::Playing);
    assert_eq!(watch.poll(&mut backend, false), Confirmation::Lapsed);
    assert_eq!(backend.state(), SongState::Idle);
    assert!(backend.details().is_none());
}

#[test]
fn details_show_what_the_player_reported() {
    let mut history = history();
    let mut backend = Backend::new();
    backend.show_details(10, 50, false);
    assert!(backend.details().is_none());
    backend.play_music(song("A"), false);
    backend.play_issued(PlayOutcome::Played, &mut history, 1).unwrap();
    backend.show_details(215, 80, true);
    {
        let details = backend.details().unwrap();
        assert_eq!(details.song().id, "A");
        assert_eq!(details.progress(), (0, 215));
        assert_eq!(details.current_time(), "00:00");
        assert_eq!(details.total_duration(), "03:35");
        assert_eq!(details.current_volume(), 80);
        assert!(details.pause());
        assert!(!details.wants_duration());
    }
    SongPlayer::observe_time(&mut backend, 72);
    assert_eq!(backend.details().unwrap().progress(), (72, 215));
    assert_eq!(backend.details().unwrap().current_time(), "01:12");
    let details = backend.details_mut().unwrap();
    details.set_volume(65);
    details.toggle_pause();
    assert_eq!(backend.details().unwrap().current_volume(), 65);
    assert!(!backend.details().unwrap().pause());
}

#[test]
fn the_time_observer_does_nothing_without_details() {
    let mut backend = Backend::new();
    SongPlayer::observe_time(&mut backend, 42);
    assert!(backend.details().is_none());
    assert!(backend.details_mut().is_none());
}

#[test]
fn a_missing_length_is_asked_for_three_times() {
    let mut details = SongDetails::new(song("A"), 0, 10, false);
    assert_eq!(details.total_duration(), "00:00");
    for _ in 0..3 {
        assert!(details.wants_duration());
        details.retry_duration(0);
    }
    assert!(!details.wants_duration());
    let mut found = SongDetails::new(song("A"), 0, 10, false);
    assert!(found.wants_duration());
    found.retry_duration(61);
    assert_eq!(found.total_duration(), "01:01");
    assert!(!found.wants_duration());
}

#[test]
fn the_player_bar_answers_keys_only_while_playing() {
    let mut history = history();
    let mut backend = Backend::new();
    assert_eq!(SongPlayer::handle_keystrokes(&backend, PlayerKey::Pause), KeyAction::Ignore);
    backend.play_music(song("A"), false);
    backend.play_issued(PlayOutcome::Played, &mut history, 1).unwrap();
    assert_eq!(SongPlayer::handle_keystrokes(&backend, PlayerKey::VolumeUp), KeyAction::Ignore);
    backend.confirm_playing();
    assert_eq!(SongPlayer::handle_keystrokes(&backend, PlayerKey::VolumeUp), KeyAction::RaiseVolume);
    assert_eq!(SongPlayer::handle_keystrokes(&backend, PlayerKey::VolumeDown), KeyAction::LowerVolume);
    assert_eq!(SongPlayer::handle_keystrokes(&backend, PlayerKey::Pause), KeyAction::TogglePause);
    assert_eq!(SongPlayer::handle_keystrokes(&backend, PlayerKey::SkipForward), KeyAction::SeekForward);
    assert_eq!(SongPlayer::handle_keystrokes(&backend, PlayerKey::SkipBackward), KeyAction::SeekBackward);
    assert_eq!(SongPlayer::handle_keystrokes(&backend, PlayerKey::Other), KeyAction::Ignore);
    assert_eq!(SongPlayer::handle_keystrokes(&backend, PlayerKey::NextSong), KeyAction::Ignore);
    assert_eq!(SongPlayer::handle_keystrokes(&backend, PlayerKey::PreviousSong), KeyAction::Ignore);
}

#[test]
fn the_playlist_keys_work_in_playlist_mode() {
    let mut history = history();
    let mut backend = playing(3, 0, &mut history);
    backend.confirm_playing();
    assert_eq!(SongPlayer::handle_keystrokes(&backend, PlayerKey::NextSong), KeyAction::Next);
    assert_eq!(SongPlayer::handle_keystrokes(&backend, PlayerKey::PreviousSong), KeyAction::Previous);
}

#[test]
fn characters_are_bound_to_the_keys_of_the_player_bar() {
    let keys = feather::config::KeyConfig::default().player;
    assert_eq!(PlayerKey::bound(&keys, ' '), PlayerKey::Pause);
    assert_eq!(PlayerKey::bound(&keys, ';'), PlayerKey::Pause);
    assert_eq!(PlayerKey::bound(&keys, 'n'), PlayerKey::NextSong);
    assert_eq!(PlayerKey::bound(&keys, 'p'), PlayerKey::PreviousSong);
    assert_eq!(PlayerKey::bound(&keys, '+'), PlayerKey::VolumeUp);
    assert_eq!(PlayerKey::bound(&keys, '-'), PlayerKey::VolumeDown);
    assert_eq!(PlayerKey::bound(&keys, 'l'), PlayerKey::SkipForward);
    assert_eq!(PlayerKey::bound(&keys, 'x'), PlayerKey::Other);
}

#[test]
fn a_move_through_a_playlist_leads_to_its_target() {
    assert_eq!(target_index(0, 0, Direction::Next), None);
    assert_eq!(target_index(3, 0, Direction::Previous), None);
    assert_eq!(target_index(0, 3, Direction::Next), Some(1));
    assert_eq!(target_index(2, 3, Direction::Next), Some(0));
    assert_eq!(target_index(0, 1, Direction::Next), Some(0));
    assert_eq!(target_index(7, 3, Direction::Next), Some(2));
    assert_eq!(target_index(usize::MAX, 4, Direction::Next), Some(0));
    assert_eq!(target_index(2, 3, Direction::Previous), Some(1));
    assert_eq!(target_index(0, 3, Direction::Previous), Some(0));
    assert_eq!(target_index(9, 3, Direction::Previous), Some(8));
}

#[test]
fn arriving_at_a_track_asks_for_it() {
    let mut history = history();
    let mut backend = playing(3, 0, &mut history);
    let request = backend.arrive(2, Ok(song("found"))).unwrap().unwrap();
    assert_eq!(request.url, url("found"));
    assert!(!request.loop_track);
    assert_eq!(backend.current_playlist_index(), Some(2));
    assert_eq!(backend.state(), SongState::Loading);

    let epoch = backend.epoch();
    let r = backend.arrive(1, Err(SongError::SongNotFound));
    assert!(matches!(r, Err(BackendError::PlaylistError(SongError::SongNotFound))));
    assert_eq!(backend.current_playlist_index(), Some(2));
    assert_eq!(backend.epoch(), epoch);

    let mut idle = Backend::new();
    assert!(idle.arrive(0, Ok(song("x"))).unwrap().is_none());
    assert!(idle.arrive(0, Err(SongError::SongNotFound)).unwrap().is_none());
    assert_eq!(idle.state(), SongState::Idle);
    assert_eq!(idle.current_playlist_index(), None);
}

#[test]
fn a_play_is_settled_by_the_player_and_the_history() {
    let mut backend = Backend::new();
    backend.play_music(song("A"), false);
    assert_eq!(backend.play_recorded(song("A"), false, PlayOutcome::Played, Ok(())).unwrap(), false);
    assert_eq!(backend.current_song().unwrap().id, "A");
    assert_eq!(backend.state(), SongState::Loading);

    let r = backend.play_recorded(
        song("B"),
        true,
        PlayOutcome::Played,
        Err(HistoryError::Error("refused".to_string())),
    );
    assert!(matches!(r, Err(BackendError::HistoryError(HistoryError::Error(_)))));
    assert_eq!(backend.current_song().unwrap().id, "B");
    assert!(!backend.is_playlist_mode());
    assert_eq!(backend.state(), SongState::Loading);

    let r = backend.play_recorded(song("C"), true, PlayOutcome::LoopFailed, Ok(()));
    assert!(matches!(r, Err(BackendError::Mpv(_))));
    assert_eq!(backend.current_song().unwrap().id, "C");
    assert!(backend.is_playlist_mode());
    assert_eq!(backend.state(), SongState::ErrorPlayingoSong);

    let r = backend.play_recorded(
        song("D"),
        false,
        PlayOutcome::PlayFailed,
        Err(HistoryError::Error("not looked at".to_string())),
    );
    assert!(matches!(r, Err(BackendError::Mpv(_))));
    assert_eq!(backend.current_song().unwrap().id, "C");
    assert!(backend.is_playlist_mode());
}

#[test]
fn a_track_with_the_reserved_id_is_not_recorded() {
    let mut history = history();
    let mut backend = Backend::new();
    backend.play_music(song("DONE"), false);
    let r = backend.play_issued(PlayOutcome::Played, &mut history, 1);
    assert!(matches!(r, Err(BackendError::HistoryError(HistoryError::Error(_)))));
    assert_eq!(backend.current_song().unwrap().id, "DONE");
    assert!(history.entries().unwrap().is_empty());
    assert_eq!(history.db.get(b"DONE").unwrap(), Some(b"true".to_vec()));
}
