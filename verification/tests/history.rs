use feather::history::{
    oldHistoryEntry, page_entries, rank_by_play_count, rank_by_recency, HistoryEntry,
    HistoryError, FAVOURITE_SONGS_SIZE, HISTORY_PAGE_SIZE,
};
use feather::history_store::HistoryDB;
use feather::song::Song;
use feather::store::Store;

fn history() -> HistoryDB {
    let store = Store::temporary().expect("a scratch store opens");
    let (history, backup) = HistoryDB::with_store(store).expect("an empty store migrates");
    assert_eq!(backup, Some(bincode::serialize(&Vec::<(String, String, Vec<String>, u64)>::new()).unwrap()));
    history
}

fn play(id: &str, at: u64) -> HistoryEntry {
    HistoryEntry::at(format!("Song {id}"), id.to_string(), vec!["Artist".to_string()], at)
}

fn ids(entries: &[HistoryEntry]) -> Vec<String> {
    entries.iter().map(|e| e.song_id.clone()).collect()
}

#[test]
fn a_new_entry_counts_one_play_at_the_current_time() {
    let entry = HistoryEntry::new("Title".to_string(), "id".to_string(), vec!["A".to_string(), "B".to_string()])
        .expect("the clock can be read");
    assert_eq!(entry.song_name, "Title");
    assert_eq!(entry.song_id, "id");
    assert_eq!(entry.artist_name, vec!["A".to_string(), "B".to_string()]);
    assert_eq!(entry.play_count, 1);
    assert!(entry.time_stamp > 1_600_000_000);
}

#[test]
fn an_entry_made_from_a_song_carries_its_fields() {
    let song = Song::new("id7".to_string(), "Seven".to_string(), vec!["Band".to_string()]);
    let entry = HistoryEntry::from_song_at(song.clone(), 77);
    assert_eq!(entry.song_id, "id7");
    assert_eq!(entry.song_name, "Seven");
    assert_eq!(entry.artist_name, vec!["Band".to_string()]);
    assert_eq!(entry.time_stamp, 77);
    assert_eq!(entry.play_count, 1);
    let back = entry.song();
    assert_eq!(back.id, "id7");
    assert_eq!(back.title, "Seven");
    assert_eq!(back.artist_name, vec!["Band".to_string()]);
    let now = HistoryEntry::from_song(song).expect("the clock can be read");
    assert_eq!(now.play_count, 1);
    assert_eq!(now.song_id, "id7");
}

#[test]
fn replay_counts_one_more_and_stamps_the_time() {
    let again = play("x", 10).replay(99).expect("the count can grow");
    assert_eq!(again.play_count, 2);
    assert_eq!(again.time_stamp, 99);
    assert_eq!(again.song_id, "x");
    let mut full = play("x", 10);
    full.play_count = u64::MAX;
    assert!(full.replay(11).is_none());
}

#[test]
fn an_old_entry_converts_to_one_play() {
    let old = oldHistoryEntry::new("Old".to_string(), "o1".to_string(), vec!["Them".to_string()], 1234);
    let entry = old.convert();
    assert_eq!(entry.song_name, "Old");
    assert_eq!(entry.song_id, "o1");
    assert_eq!(entry.artist_name, vec!["Them".to_string()]);
    assert_eq!(entry.time_stamp, 1234);
    assert_eq!(entry.play_count, 1);
}

#[test]
fn playing_a_track_twice_leaves_one_entry_with_two_plays() {
    let mut history = history();
    history.add_entry_at(&play("t", 100), 100).unwrap();
    history.add_entry_at(&play("t", 250), 250).unwrap();
    let entries = history.entries().unwrap();
    assert_eq!(entries.len(), 1);
    assert_eq!(entries[0].song_id, "t");
    assert_eq!(entries[0].play_count, 2);
    assert_eq!(entries[0].time_stamp, 250);
}

#[test]
fn a_first_play_is_filed_as_the_entry_stands() {
    let mut history = history();
    history.add_entry_at(&play("t", 100), 999).unwrap();
    let entries = history.entries().unwrap();
    assert_eq!(entries.len(), 1);
    assert_eq!(entries[0].play_count, 1);
    assert_eq!(entries[0].time_stamp, 100);
    assert_eq!(entries[0].song_name, "Song t");
    assert_eq!(entries[0].artist_name, vec!["Artist".to_string()]);
}

#[test]
fn plays_of_different_tracks_do_not_interfere() {
    let mut history = history();
    history.add_entry_at(&play("a", 1), 1).unwrap();
    history.add_entry_at(&play("b", 2), 2).unwrap();
    history.add_entry_at(&play("a", 3), 3).unwrap();
    let entries = history.entries().unwrap();
    assert_eq!(ids(&entries), vec!["a", "b"]);
    assert_eq!(entries[0].play_count, 2);
    assert_eq!(entries[0].time_stamp, 3);
    assert_eq!(entries[1].play_count, 1);
    assert_eq!(entries[1].time_stamp, 2);
}

#[test]
fn add_entry_reads_the_clock_for_a_replay() {
    let mut history = history();
    history.add_entry(&play("t", 5)).unwrap();
    assert_eq!(history.entries().unwrap()[0].time_stamp, 5);
    history.add_entry(&play("t", 6)).unwrap();
    let entries = history.entries().unwrap();
    assert_eq!(entries.len(), 1);
    assert_eq!(entries[0].play_count, 2);
    assert!(entries[0].time_stamp > 1_600_000_000);
}

#[test]
fn recent_lists_the_latest_play_first() {
    let mut history = history();
    history.add_entry_at(&play("a", 10), 10).unwrap();
    history.add_entry_at(&play("b", 30), 30).unwrap();
    history.add_entry_at(&play("c", 20), 20).unwrap();
    assert_eq!(ids(&history.get_history(0).unwrap()), vec!["b", "c", "a"]);
    assert_eq!(ids(&history.recent(1, 1).unwrap()), vec!["c"]);
    assert_eq!(ids(&history.recent(2, 5).unwrap()), vec!["a"]);
    assert!(history.recent(3, 5).unwrap().is_empty());
    assert!(history.recent(0, 0).unwrap().is_empty());
    assert!(history.get_history(usize::MAX).unwrap().is_empty());
}

#[test]
fn recent_keeps_key_order_among_equal_times() {
    let mut history = history();
    for id in ["m", "c", "x", "a"] {
        history.add_entry_at(&play(id, 50), 50).unwrap();
    }
    history.add_entry_at(&play("late", 60), 60).unwrap();
    assert_eq!(ids(&history.get_history(0).unwrap()), vec!["late", "a", "c", "m", "x"]);
}

#[test]
fn recent_called_twice_returns_the_same_page() {
    let mut history = history();
    for i in 0..30u64 {
        history.add_entry_at(&play(&format!("s{i}"), i % 7), i % 7).unwrap();
    }
    let first = history.get_history(0).unwrap();
    let second = history.get_history(0).unwrap();
    assert_eq!(first.len(), HISTORY_PAGE_SIZE);
    assert_eq!(ids(&first), ids(&second));
    for (a, b) in first.iter().zip(second.iter()) {
        assert_eq!(a.time_stamp, b.time_stamp);
        assert_eq!(a.play_count, b.play_count);
    }
    for pair in first.windows(2) {
        assert!(pair[0].time_stamp >= pair[1].time_stamp);
    }
}

#[test]
fn two_pages_of_recent_partition_the_history() {
    let mut history = history();
    let p = HISTORY_PAGE_SIZE;
    for i in 0..(2 * p) as u64 {
        history.add_entry_at(&play(&format!("s{i:02}"), 1000 + (i * 37) % 41), 0).unwrap();
    }
    let first = ids(&history.recent(0, p).unwrap());
    let second = ids(&history.recent(p, p).unwrap());
    assert_eq!(first.len(), p);
    assert_eq!(second.len(), p);
    for id in &first {
        assert!(!second.contains(id));
    }
    let mut union: Vec<String> = first.into_iter().chain(second).collect();
    union.sort();
    let mut all = ids(&history.entries().unwrap());
    all.sort();
    assert_eq!(union, all);
    assert_eq!(all.len(), 2 * p);
}

#[test]
fn most_played_lists_the_top_five_by_play_count() {
    let mut history = history();
    for (id, plays) in [("a", 1u64), ("b", 4), ("c", 2), ("d", 6), ("e", 3), ("f", 5), ("g", 1)] {
        for n in 0..plays {
            history.add_entry_at(&play(id, n), n).unwrap();
        }
    }
    let top = history.most_played().unwrap();
    assert_eq!(top.len(), FAVOURITE_SONGS_SIZE);
    assert_eq!(ids(&top), vec!["d", "f", "b", "e", "c"]);
    assert_eq!(top.iter().map(|e| e.play_count).collect::<Vec<_>>(), vec![6, 5, 4, 3, 2]);
    assert_eq!(ids(&history.top_played(1).unwrap()), vec!["d"]);
    assert!(history.top_played(0).unwrap().is_empty());
    assert_eq!(history.top_played(100).unwrap().len(), 7);
}

#[test]
fn rank_and_page_work_on_plain_lists() {
    let entries = vec![play("a", 3), play("b", 9), play("c", 3), play("d", 1)];
    assert_eq!(ids(&rank_by_recency(entries)), vec!["b", "a", "c", "d"]);
    let mut counted = vec![play("a", 0), play("b", 0), play("c", 0)];
    counted[0].play_count = 2;
    counted[1].play_count = 7;
    counted[2].play_count = 2;
    assert_eq!(ids(&rank_by_play_count(counted)), vec!["b", "a", "c"]);
    let page = page_entries(vec![play("a", 0), play("b", 0), play("c", 0), play("d", 0)], 1, 2);
    assert_eq!(ids(&page), vec!["b", "c"]);
    let tail = page_entries(vec![play("a", 0), play("b", 0), play("c", 0)], 2, usize::MAX);
    assert_eq!(ids(&tail), vec!["c"]);
}

#[test]
fn delete_entry_removes_one_track() {
    let mut history = history();
    history.add_entry_at(&play("a", 1), 1).unwrap();
    history.add_entry_at(&play("b", 2), 2).unwrap();
    history.delete_entry("a").unwrap();
    history.delete_entry("never played").unwrap();
    assert_eq!(ids(&history.entries().unwrap()), vec!["b"]);
}

#[test]
fn clear_history_removes_every_entry_and_keeps_the_marker() {
    let mut history = history();
    history.add_entry_at(&play("a", 1), 1).unwrap();
    history.add_entry_at(&play("b", 2), 2).unwrap();
    history.clear_history().unwrap();
    assert!(history.entries().unwrap().is_empty());
    assert!(!history.needs_migration().unwrap());
    assert_eq!(history.db.get(b"DONE").unwrap(), Some(b"true".to_vec()));
    assert_eq!(history.db.len().unwrap(), 1);
    assert_eq!(history.migrate_history().unwrap(), None);
}

#[test]
fn last_played_is_the_most_recent_entry() {
    let mut history = history();
    assert_eq!(history.get_last_played_song().unwrap(), None);
    history.add_entry_at(&play("zz", 10), 10).unwrap();
    history.add_entry_at(&play("aa", 30), 30).unwrap();
    history.add_entry_at(&play("mm", 20), 20).unwrap();
    assert_eq!(history.get_last_played_song().unwrap(), Some("aa".to_string()));
    history.add_entry_at(&play("zz", 40), 40).unwrap();
    assert_eq!(history.get_last_played_song().unwrap(), Some("zz".to_string()));
}

#[test]
fn migration_rewrites_old_records_once() {
    let mut store = Store::temporary().unwrap();
    let one = ("One".to_string(), "id1".to_string(), vec!["A".to_string()], 11u64);
    let two = ("Two".to_string(), "id2".to_string(), Vec::<String>::new(), 22u64);
    store.insert(b"id1", bincode::serialize(&one).unwrap()).unwrap();
    store.insert(b"id2", bincode::serialize(&two).unwrap()).unwrap();
    store.insert(b"junk", vec![1, 2, 3]).unwrap();
    let (mut history, backup) = HistoryDB::with_store(store).unwrap();
    assert_eq!(backup, Some(bincode::serialize(&vec![one.clone(), two.clone()]).unwrap()));
    let entries = history.entries().unwrap();
    assert_eq!(ids(&entries), vec!["id1", "id2"]);
    assert_eq!(entries[0].song_name, "One");
    assert_eq!(entries[0].artist_name, vec!["A".to_string()]);
    assert_eq!(entries[0].time_stamp, 11);
    assert_eq!(entries[0].play_count, 1);
    assert_eq!(entries[1].time_stamp, 22);
    assert_eq!(entries[1].play_count, 1);
    assert_eq!(history.db.get(b"junk").unwrap(), Some(vec![1, 2, 3]));
    assert_eq!(history.db.get(b"DONE").unwrap(), Some(b"true".to_vec()));
    assert_eq!(
        history.db.get(b"id1").unwrap(),
        Some(bincode::serialize(&("One", "id1", vec!["A"], 11u64, 1u64)).unwrap())
    );

    history.add_entry_at(&play("id1", 50), 50).unwrap();
    assert!(!history.needs_migration().unwrap());
    assert_eq!(history.migrate_history().unwrap(), None);
    let entries = history.entries().unwrap();
    assert_eq!(entries[0].play_count, 2);
    assert_eq!(entries[0].time_stamp, 50);
}

#[test]
fn a_marked_store_is_taken_as_it_is() {
    let mut store = Store::temporary().unwrap();
    store.insert(b"DONE", b"true".to_vec()).unwrap();
    let counted = ("Song".to_string(), "id".to_string(), vec!["A".to_string()], 5u64, 9u64);
    store.insert(b"id", bincode::serialize(&counted).unwrap()).unwrap();
    let (history, backup) = HistoryDB::with_store(store).unwrap();
    assert_eq!(backup, None);
    let entries = history.entries().unwrap();
    assert_eq!(entries.len(), 1);
    assert_eq!(entries[0].play_count, 9);
    assert_eq!(entries[0].time_stamp, 5);
}

#[test]
fn backup_lists_the_records_that_read_as_old() {
    let mut history = history();
    history.add_entry_at(&play("a", 7), 7).unwrap();
    let expected = vec![("Song a".to_string(), "a".to_string(), vec!["Artist".to_string()], 7u64)];
    assert_eq!(history.backup_history().unwrap(), bincode::serialize(&expected).unwrap());
}

#[test]
fn bytes_that_spell_no_entry_are_a_serialization_error() {
    let mut history = history();
    history.db.insert(b"t", vec![0xff, 0xff]).unwrap();
    let r = history.add_entry_at(&play("t", 1), 1);
    assert!(matches!(r, Err(HistoryError::SerializationError(_))));
    assert_eq!(history.db.get(b"t").unwrap(), Some(vec![0xff, 0xff]));
    assert!(history.entries().unwrap().is_empty());
}

#[test]
fn a_play_count_that_cannot_grow_is_an_error() {
    let mut history = history();
    let full = ("Song".to_string(), "t".to_string(), Vec::<String>::new(), 5u64, u64::MAX);
    history.db.insert(b"t", bincode::serialize(&full).unwrap()).unwrap();
    let r = history.add_entry_at(&play("t", 6), 6);
    assert!(matches!(r, Err(HistoryError::Error(_))));
    let entries = history.entries().unwrap();
    assert_eq!(entries[0].play_count, u64::MAX);
    assert_eq!(entries[0].time_stamp, 5);
}

#[test]
fn a_first_play_counts_one_whatever_the_entry_carries() {
    let mut history = history();
    let mut carried = play("t", 100);
    carried.play_count = 7;
    history.add_entry_at(&carried, 999).unwrap();
    let entries = history.entries().unwrap();
    assert_eq!(entries.len(), 1);
    assert_eq!(entries[0].play_count, 1);
    assert_eq!(entries[0].time_stamp, 100);
    assert_eq!(entries[0].song_id, "t");
    assert_eq!(entries[0].song_name, "Song t");
    assert_eq!(entries[0].artist_name, vec!["Artist".to_string()]);
    assert_eq!(
        history.db.get(b"t").unwrap(),
        Some(bincode::serialize(&("Song t", "t", vec!["Artist"], 100u64, 1u64)).unwrap())
    );
}

#[test]
fn two_plays_count_two_whatever_the_entries_carry() {
    let mut history = history();
    let mut carried = play("t", 100);
    carried.play_count = 5;
    history.add_entry_at(&carried, 100).unwrap();
    history.add_entry_at(&carried, 250).unwrap();
    let entries = history.entries().unwrap();
    assert_eq!(entries.len(), 1);
    assert_eq!(entries[0].play_count, 2);
    assert_eq!(entries[0].time_stamp, 250);

    let mut clocked = play("u", 7);
    clocked.play_count = 9;
    history.add_entry(&clocked).unwrap();
    assert_eq!(history.entries().unwrap()[1].play_count, 1);
    history.add_entry(&clocked).unwrap();
    assert_eq!(history.entries().unwrap()[1].play_count, 2);
    assert_eq!(history.db.len().unwrap(), 3);
}

#[test]
fn the_record_to_file_is_decided_from_what_was_found() {
    let mut carried = play("t", 100);
    carried.play_count = 7;
    let first = HistoryEntry::played(None, &carried, 555).unwrap();
    assert_eq!(first.play_count, 1);
    assert_eq!(first.time_stamp, 100);
    assert_eq!(first.song_id, "t");
    let mut on_record = play("t", 50);
    on_record.play_count = 3;
    let again = HistoryEntry::played(Some(on_record), &carried, 555).unwrap();
    assert_eq!(again.play_count, 4);
    assert_eq!(again.time_stamp, 555);
    let mut full = play("t", 50);
    full.play_count = u64::MAX;
    assert!(HistoryEntry::played(Some(full), &carried, 555).is_none());
}

#[test]
fn the_marker_key_names_no_track() {
    let mut history = history();
    history.add_entry_at(&play("a", 1), 1).unwrap();
    let r = history.add_entry_at(&play("DONE", 2), 2);
    assert!(matches!(r, Err(HistoryError::Error(_))));
    assert!(matches!(history.add_entry(&play("DONE", 2)), Err(HistoryError::Error(_))));
    assert_eq!(history.db.get(b"DONE").unwrap(), Some(b"true".to_vec()));
    history.delete_entry("DONE").unwrap();
    assert_eq!(history.db.get(b"DONE").unwrap(), Some(b"true".to_vec()));
    assert!(!history.needs_migration().unwrap());
    assert_eq!(ids(&history.entries().unwrap()), vec!["a"]);
}

#[test]
fn a_marker_that_reads_as_an_entry_is_still_no_entry() {
    let mut store = Store::temporary().unwrap();
    let disguised = ("Song".to_string(), "DONE".to_string(), Vec::<String>::new(), 5u64, 9u64);
    store.insert(b"DONE", bincode::serialize(&disguised).unwrap()).unwrap();
    let real = ("Song".to_string(), "id".to_string(), Vec::<String>::new(), 6u64, 2u64);
    store.insert(b"id", bincode::serialize(&real).unwrap()).unwrap();
    let (mut history, backup) = HistoryDB::with_store(store).unwrap();
    assert_eq!(backup, None);
    assert_eq!(ids(&history.entries().unwrap()), vec!["id"]);
    assert_eq!(ids(&history.get_history(0).unwrap()), vec!["id"]);
    assert_eq!(ids(&history.most_played().unwrap()), vec!["id"]);
    assert_eq!(history.get_last_played_song().unwrap(), Some("id".to_string()));
    history.clear_history().unwrap();
    assert_eq!(history.db.len().unwrap(), 1);
    assert_eq!(history.db.get(b"DONE").unwrap(), Some(bincode::serialize(&disguised).unwrap()));
}
