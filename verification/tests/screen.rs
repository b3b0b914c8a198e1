use feather::config::{KeyConfig, USERCONFIG};
use feather::screen::{
    next_page_offset, prev_page_offset, ErrorPopUp, Help, HistoryKeys, KeyRoute, ListCursor,
    Navigator, PagedList, State, StatusBar, ERROR_SECONDS,
};
use std::rc::Rc;
use std::sync::Arc;

#[test]
fn the_default_colours_and_icons() {
    let config = USERCONFIG::default();
    assert_eq!(config.bg_color, (29, 32, 33));
    assert_eq!(config.text_color, (235, 219, 178));
    assert_eq!(config.play_icon, "▶");
    assert_eq!(config.pause_icon, "❚❚");
    assert_eq!(config.selected_list_item, (60, 56, 54));
    assert_eq!(config.selected_item_char, ">");
    assert_eq!(config.selected_tab_color, (250, 189, 47));
    assert_eq!(config.player_progress_bar_color, (214, 93, 14));
    assert_eq!(config.player_volume_bar_color, (152, 151, 26));
    assert_eq!(config.selected_mode_text_color, (152, 151, 26));
    let copy = config.clone();
    assert_eq!(copy.play_icon, "▶");
    assert_eq!(copy.selected_tab_color, (250, 189, 47));
}

#[test]
fn the_default_keys() {
    let keys = KeyConfig::default();
    assert_eq!(keys.leader, ':');
    assert_eq!(keys.navigation.home, ';');
    assert_eq!(keys.navigation.quit, 'q');
    assert_eq!(keys.navigation.search, 's');
    assert_eq!(keys.navigation.player, 'p');
    assert_eq!(keys.navigation.history, 'h');
    assert_eq!(keys.navigation.userplaylist, 'u');
    assert_eq!(keys.default.up, 'k');
    assert_eq!(keys.default.down, 'j');
    assert_eq!(keys.default.next_page, 'l');
    assert_eq!(keys.default.prev_page, 'h');
    assert_eq!(keys.default.add_to_playlist, 'a');
    assert_eq!(keys.default.play_song, 'p');
    assert_eq!(keys.history.up, None);
    assert_eq!(keys.history.play_song, None);
    assert_eq!(keys.search.switch, ';');
    assert_eq!(keys.search.playlist.switch_mode, '[');
    assert_eq!(keys.search.playlist.playlist_search.select_playlist, None);
    assert_eq!(keys.search.playlist.view_playlist.start_playlist, 'p');
    assert_eq!(keys.search.playlist.view_playlist.start_from_here, 'a');
    assert_eq!(keys.search.song.switch_mode, None);
    assert_eq!(keys.player.pause, ';');
    assert_eq!(keys.player.skip_plus_secs, 'l');
    assert_eq!(keys.player.skip_minus_secs, 'l');
    assert_eq!(keys.player.playlist_next_song, 'n');
    assert_eq!(keys.player.playlist_prev_song, 'p');
    assert_eq!(keys.player.volume_up, '+');
    assert_eq!(keys.player.volume_down, '-');
}

#[test]
fn the_help_table() {
    let help = Help::new();
    assert_eq!(help.len(), 12);
    assert_eq!(help.row(0), ("s", "Search"));
    assert_eq!(help.row(3), ("?", "Toggle Help Mode"));
    assert_eq!(help.row(7), ("↑ / k(History/Search)", "Navigate up in list"));
    assert_eq!(help.row(11), ("← (Player)", "Rewind 5 seconds"));
}

#[test]
fn the_status_bar_follows_the_screen() {
    let mut keys = KeyConfig::default();
    keys.history.up = Some('w');
    keys.history.play_song = Some('x');
    let mut bar = StatusBar::new(Rc::new(USERCONFIG::default()), Rc::new(keys));
    assert_eq!(bar.state(), State::Home);
    bar.set_state(State::History);
    assert_eq!(bar.state(), State::History);
    assert_eq!(bar.color(), (250, 189, 47));
    assert_eq!(bar.key_config().leader, ':');
    assert_eq!(
        bar.history_keys(),
        HistoryKeys { up: 'w', down: 'j', add_to_playlist: 'a', play_song: 'x' }
    );
}

#[test]
fn an_error_stays_up_for_ten_seconds() {
    let mut popup = ErrorPopUp::new(Arc::new(USERCONFIG::default()));
    assert!(popup.message().is_none());
    assert!(!popup.expire(5));
    popup.show_error("no such track".to_string(), 100);
    assert_eq!(popup.message().unwrap(), "no such track");
    assert!(popup.expire(100));
    assert!(popup.expire(100 + ERROR_SECONDS - 1));
    assert!(popup.expire(50));
    assert!(!popup.expire(100 + ERROR_SECONDS));
    assert!(popup.message().is_none());
    assert_eq!(popup.colors(), ((235, 219, 178), (29, 32, 33)));
}

#[test]
fn a_later_error_replaces_an_earlier_one() {
    let mut popup = ErrorPopUp::new(Arc::new(USERCONFIG::default()));
    popup.show_error("first".to_string(), 100);
    popup.show_error("second".to_string(), 105);
    assert!(popup.expire(112));
    assert_eq!(popup.message().unwrap(), "second");
    assert!(!popup.expire(115));
}

#[test]
fn the_cursor_stays_within_the_list() {
    let mut cursor = ListCursor::new(3);
    assert_eq!(cursor.selected, 0);
    cursor.select_previous();
    assert_eq!(cursor.selected, 0);
    cursor.select_next();
    cursor.select_next();
    assert_eq!(cursor.selected, 2);
    cursor.select_next();
    assert_eq!(cursor.selected, 2);
    cursor.select_previous();
    assert_eq!(cursor.selected, 1);

    let mut empty = ListCursor::new(0);
    empty.select_next();
    assert_eq!(empty.selected, 0);

    let mut astray = ListCursor { selected: 9, max_len: 4 };
    astray.select_next();
    assert_eq!(astray.selected, 3);
}

#[test]
fn pages_turn_by_whole_pages() {
    assert_eq!(next_page_offset(0, 45, 20), 20);
    assert_eq!(next_page_offset(20, 45, 20), 40);
    assert_eq!(next_page_offset(40, 45, 20), 40);
    assert_eq!(next_page_offset(0, 20, 20), 20);
    assert_eq!(next_page_offset(0, 19, 20), 0);
    assert_eq!(next_page_offset(usize::MAX, usize::MAX, 20), usize::MAX);
    assert_eq!(prev_page_offset(40, 20), 20);
    assert_eq!(prev_page_offset(20, 20), 0);
    assert_eq!(prev_page_offset(7, 20), 0);
    assert_eq!(prev_page_offset(0, 20), 0);
}

#[test]
fn keys_after_the_leader_lead_from_screen_to_screen() {
    let keys = KeyConfig::default();
    let mut at = Navigator::new();
    assert_eq!(
        at,
        Navigator { state: State::Home, prev_state: None, awaiting: false, exit: false }
    );
    at.follow(&keys, 's');
    assert_eq!(at.state, State::Search);
    at.follow(&keys, 'p');
    assert_eq!(at.state, State::SongPlayer);
    assert_eq!(at.prev_state, Some(State::Search));
    at.follow(&keys, 'p');
    assert_eq!(at.prev_state, Some(State::Search));
    at.follow(&keys, 'h');
    assert_eq!(at.state, State::History);
    at.follow(&keys, 'u');
    assert_eq!(at.state, State::UserPlaylist);
    at.follow(&keys, 'z');
    assert_eq!(at.state, State::UserPlaylist);
    at.follow(&keys, ';');
    assert_eq!(at.state, State::Home);
    assert!(!at.exit);
    at.follow(&keys, 'q');
    assert!(at.exit);
    assert_eq!(at.state, State::Home);
}

#[test]
fn the_first_binding_that_matches_wins() {
    let mut keys = KeyConfig::default();
    keys.navigation.search = 'x';
    keys.navigation.history = 'x';
    keys.navigation.quit = 'x';
    let mut at = Navigator::new();
    at.follow(&keys, 'x');
    assert_eq!(at.state, State::Search);
    assert!(!at.exit);
}

#[test]
fn the_leader_takes_the_next_key() {
    let keys = KeyConfig::default();
    let mut at = Navigator::new();
    assert_eq!(at.press(&keys, Some('s'), false), KeyRoute::ForScreen);
    assert_eq!(at.state, State::Home);
    assert_eq!(at.press(&keys, Some(':'), false), KeyRoute::Taken);
    assert!(at.awaiting);
    assert_eq!(at.press(&keys, Some('s'), false), KeyRoute::Taken);
    assert!(!at.awaiting);
    assert_eq!(at.state, State::Search);
    assert_eq!(at.press(&keys, None, false), KeyRoute::ForScreen);

    assert_eq!(at.press(&keys, Some(':'), true), KeyRoute::ForScreen);
    assert!(!at.awaiting);

    assert_eq!(at.press(&keys, Some(':'), false), KeyRoute::Taken);
    assert_eq!(at.press(&keys, None, true), KeyRoute::Taken);
    assert!(!at.awaiting);
    assert_eq!(at.state, State::Search);

    assert_eq!(at.press(&keys, Some(':'), false), KeyRoute::Taken);
    assert_eq!(at.press(&keys, Some('q'), true), KeyRoute::Taken);
    assert!(at.exit);
}

#[test]
fn a_long_list_is_viewed_page_by_page() {
    let mut list = PagedList::new(45, 20);
    assert_eq!(list.page_bounds(), (0, 20));
    assert_eq!(list.page_len(), 20);
    assert_eq!(list.cursor, ListCursor { selected: 0, max_len: 20 });
    list.cursor.select_next();
    assert_eq!(list.selected_index(), Some(1));
    list.next_page();
    assert_eq!(list.page_bounds(), (20, 40));
    assert_eq!(list.cursor.selected, 0);
    list.next_page();
    assert_eq!(list.page_bounds(), (40, 45));
    assert_eq!(list.cursor, ListCursor { selected: 0, max_len: 5 });
    list.next_page();
    assert_eq!(list.offset, 40);
    list.prev_page();
    assert_eq!(list.page_bounds(), (20, 40));
    list.prev_page();
    assert_eq!(list.page_bounds(), (0, 20));
    list.prev_page();
    assert_eq!(list.offset, 0);

    let mut exact = PagedList::new(40, 20);
    exact.next_page();
    assert_eq!(exact.page_bounds(), (20, 40));
    exact.next_page();
    assert_eq!(exact.offset, 20);

    let mut short = PagedList::new(3, 20);
    assert_eq!(short.page_bounds(), (0, 3));
    short.next_page();
    assert_eq!(short.offset, 0);
    short.cursor.select_next();
    short.cursor.select_next();
    short.cursor.select_next();
    assert_eq!(short.selected_index(), Some(2));

    let empty = PagedList::new(0, 20);
    assert_eq!(empty.page_bounds(), (0, 0));
    assert_eq!(empty.selected_index(), None);

    let astray = PagedList {
        total: 5,
        page_size: 20,
        offset: usize::MAX,
        cursor: ListCursor { selected: usize::MAX, max_len: 0 },
    };
    assert_eq!(astray.page_bounds(), (5, 5));
    assert_eq!(astray.selected_index(), None);
}
