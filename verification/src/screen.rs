//! What the screens decide: which screen is shown, where a list's cursor
//! stands, which page of a list is on view, and how long an error stays up.
//! Drawing is the caller's business.

use crate::config::{ConfigView, KeyConfig, USERCONFIG};
use std::rc::Rc;
use std::sync::Arc;
use vstd::prelude::*;

verus! {

/// The screens of the application.
#[derive(Debug, Clone, Copy, PartialEq, Eq, Structural)]
pub enum State {
    Home,
    HelpMode,
    Search,
    History,
    UserPlaylist,
    SongPlayer,
}

/// How many seconds an error stays on show.
pub const ERROR_SECONDS: u64 = 10;

/// The help screen.
#[derive(Debug)]
pub struct Help;

impl Help {
    /// The help screen.
    pub fn new() -> Help {
        Help {  }
    }

    /// How many rows the help table has.
    pub fn len(&self) -> (n: usize)
        ensures
            n == 12,
    {
        12
    }

    /// Row `i` of the help table: a key, and what it does.
    pub fn row(&self, i: usize) -> (row: (&'static str, &'static str))
        requires
            i < 12,
        ensures
            row == help_row(i as int),
    {
        if i == 0 {
            ("s", "Search")
        } else if i == 1 {
            ("h", "History")
        } else if i == 2 {
            ("p", "Player")
        } else if i == 3 {
            ("?", "Toggle Help Mode")
        } else if i == 4 {
            ("TAB (Search)", "Toggle between search input and results")
        } else if i == 5 {
            ("Esc (Global)", "Quit application")
        } else if i == 6 {
            ("Esc (Non-Global)", "Switch to Global Mode")
        } else if i == 7 {
            ("↑ / k(History/Search)", "Navigate up in list")
        } else if i == 8 {
            ("↓ / j(History/Search)", "Navigate down in list")
        } else if i == 9 {
            ("Space / ; (Player)", "Pause current song")
        } else if i == 10 {
            ("→ (Player)", "Skip forward 5 seconds")
        } else {
            ("← (Player)", "Rewind 5 seconds")
        }
    }
}

/// Row `i` of the help table.
pub open spec fn help_row(i: int) -> (&'static str, &'static str) {
    if i == 0 {
        ("s", "Search")
    } else if i == 1 {
        ("h", "History")
    } else if i == 2 {
        ("p", "Player")
    } else if i == 3 {
        ("?", "Toggle Help Mode")
    } else if i == 4 {
        ("TAB (Search)", "Toggle between search input and results")
    } else if i == 5 {
        ("Esc (Global)", "Quit application")
    } else if i == 6 {
        ("Esc (Non-Global)", "Switch to Global Mode")
    } else if i == 7 {
        ("↑ / k(History/Search)", "Navigate up in list")
    } else if i == 8 {
        ("↓ / j(History/Search)", "Navigate down in list")
    } else if i == 9 {
        ("Space / ; (Player)", "Pause current song")
    } else if i == 10 {
        ("→ (Player)", "Skip forward 5 seconds")
    } else {
        ("← (Player)", "Rewind 5 seconds")
    }
}

/// The keys that the history screen answers to, once its own bindings and
/// the defaults are put together.
#[derive(Debug, Clone, Copy, PartialEq, Eq, Structural)]
pub struct HistoryKeys {
    pub up: char,
    pub down: char,
    pub add_to_playlist: char,
    pub play_song: char,
}

/// The history screen's keys under `keys`: its own binding where it has
/// one, else the default.
pub open spec fn history_keys_of(keys: KeyConfig) -> HistoryKeys {
    HistoryKeys {
        up: match keys.history.up {
            Some(key) => key,
            None => keys.default.up,
        },
        down: match keys.history.down {
            Some(key) => key,
            None => keys.default.down,
        },
        add_to_playlist: match keys.history.add_to_playlist {
            Some(key) => key,
            None => keys.default.add_to_playlist,
        },
        play_song: match keys.history.play_song {
            Some(key) => key,
            None => keys.default.play_song,
        },
    }
}

/// The bar that tells the keys of the screen on show.
pub struct StatusBar {
    state: State,
    config: Rc<USERCONFIG>,
    key_config: Rc<KeyConfig>,
}

impl StatusBar {
    /// The screen whose keys the bar tells.
    pub closed spec fn screen(&self) -> State {
        self.state
    }

    /// The key bindings that the bar tells from.
    pub closed spec fn keys(&self) -> KeyConfig {
        *self.key_config
    }

    /// The colours that the bar is drawn in.
    pub closed spec fn settings(&self) -> ConfigView {
        self.config@
    }

    /// A status bar for the home screen.
    pub fn new(config: Rc<USERCONFIG>, key_config: Rc<KeyConfig>) -> (bar: Self)
        ensures
            bar.screen() == State::Home,
            bar.keys() == *key_config,
            bar.settings() == config@,
    {
        Self { state: State::Home, config, key_config }
    }

    /// The screen whose keys the bar tells.
    pub fn state(&self) -> (state: State)
        ensures
            state == self.screen(),
    {
        self.state
    }

    /// Turns the bar to `state`.
    pub fn set_state(&mut self, state: State)
        ensures
            final(self).screen() == state,
            final(self).keys() == old(self).keys(),
            final(self).settings() == old(self).settings(),
    {
        self.state = state;
    }

    /// The colour in which the bar tells its keys.
    pub fn color(&self) -> (color: (u8, u8, u8))
        ensures
            color == self.settings().selected_tab_color,
    {
        self.config.selected_tab_color
    }

    /// The key bindings that the bar tells from.
    pub fn key_config(&self) -> (keys: &KeyConfig)
        ensures
            *keys == self.keys(),
    {
        &self.key_config
    }

    /// The keys that the history screen answers to.
    pub fn history_keys(&self) -> (keys: HistoryKeys)
        ensures
            keys == history_keys_of(self.keys()),
    {
        let bound = &self.key_config.history;
        let default = &self.key_config.default;
        HistoryKeys {
            up: match bound.up {
                Some(key) => key,
                None => default.up,
            },
            down: match bound.down {
                Some(key) => key,
                None => default.down,
            },
            add_to_playlist: match bound.add_to_playlist {
                Some(key) => key,
                None => default.add_to_playlist,
            },
            play_song: match bound.play_song {
                Some(key) => key,
                None => default.play_song,
            },
        }
    }
}

/// The box that shows the latest error for a while.
pub struct ErrorPopUp {
    error_message: Option<String>,
    error_timer: Option<u64>,
    config: Arc<USERCONFIG>,
}

/// What an [`ErrorPopUp`] shows: the message, and the second at which it
/// went up.
pub struct PopUpView {
    pub message: Option<Seq<char>>,
    pub shown_at: Option<u64>,
}

impl View for ErrorPopUp {
    type V = PopUpView;

    closed spec fn view(&self) -> PopUpView {
        PopUpView {
            message: match self.error_message {
                Some(message) => Some(message@),
                None => None,
            },
            shown_at: self.error_timer,
        }
    }
}

/// A box that shows nothing.
pub open spec fn no_error() -> PopUpView {
    PopUpView { message: None, shown_at: None }
}

/// Whether the message that went up at `shown_at` has had its time at
/// `now`.
pub open spec fn is_stale(shown_at: u64, now: u64) -> bool {
    now >= shown_at && now - shown_at >= ERROR_SECONDS
}

impl ErrorPopUp {
    /// The colours that the box is drawn in.
    pub closed spec fn settings(&self) -> ConfigView {
        self.config@
    }

    /// A box that shows nothing.
    pub fn new(config: Arc<USERCONFIG>) -> (popup: Self)
        ensures
            popup@ == no_error(),
            popup.settings() == config@,
    {
        Self { error_message: None, error_timer: None, config }
    }

    /// Puts `msg` up at second `now`, in place of what was shown.
    pub fn show_error(&mut self, msg: String, now: u64)
        ensures
            final(self)@ == (PopUpView { message: Some(msg@), shown_at: Some(now) }),
            final(self).settings() == old(self).settings(),
    {
        self.error_message = Some(msg);
        self.error_timer = Some(now);
    }

    /// Takes the message down if it has been up for [`ERROR_SECONDS`] at
    /// second `now`. Returns whether a message is still up.
    pub fn expire(&mut self, now: u64) -> (up: bool)
        ensures
            final(self)@ == match old(self)@.shown_at {
                Some(shown_at) => if is_stale(shown_at, now) {
                    no_error()
                } else {
                    old(self)@
                },
                None => old(self)@,
            },
            up == final(self)@.message is Some,
            final(self).settings() == old(self).settings(),
    {
        match self.error_timer {
            Some(shown_at) => {
                if now >= shown_at && now - shown_at >= ERROR_SECONDS {
                    self.error_message = None;
                    self.error_timer = None;
                }
            },
            None => {},
        }
        self.error_message.is_some()
    }

    /// The message on show, if any.
    pub fn message(&self) -> (message: Option<&String>)
        ensures
            match message {
                Some(text) => self@.message == Some(text@),
                None => self@.message is None,
            },
    {
        self.error_message.as_ref()
    }

    /// The colours in which the box is drawn: text, then background.
    pub fn colors(&self) -> (colors: ((u8, u8, u8), (u8, u8, u8)))
        ensures
            colors == (self.settings().text_color, self.settings().bg_color),
    {
        (self.config.text_color, self.config.bg_color)
    }
}

/// The cursor of a list: the row selected, among `max_len` rows.
#[derive(Debug, Clone, Copy, PartialEq, Eq, Structural)]
pub struct ListCursor {
    pub selected: usize,
    pub max_len: usize,
}

/// The row below `selected` in a list of `max_len` rows; the last row has
/// none below, and in an empty list nothing moves.
pub open spec fn row_below(selected: usize, max_len: usize) -> usize {
    if max_len == 0 {
        selected
    } else if selected < max_len - 1 {
        (selected + 1) as usize
    } else {
        (max_len - 1) as usize
    }
}

/// The row above `selected`; the first row has none above.
pub open spec fn row_above(selected: usize) -> usize {
    if selected > 0 {
        (selected - 1) as usize
    } else {
        0
    }
}

impl ListCursor {
    /// A cursor on the first row of a list of `max_len` rows.
    pub fn new(max_len: usize) -> (cursor: Self)
        ensures
            cursor == (ListCursor { selected: 0, max_len }),
    {
        ListCursor { selected: 0, max_len }
    }

    /// Moves the cursor one row down, as far as the last row.
    pub fn select_next(&mut self)
        ensures
            *final(self) == (ListCursor {
                selected: row_below(old(self).selected, old(self).max_len),
                ..*old(self)
            }),
    {
        if self.max_len > 0 {
            if self.selected < self.max_len - 1 {
                self.selected += 1;
            } else {
                self.selected = self.max_len - 1;
            }
        }
    }

    /// Moves the cursor one row up, as far as the first row.
    pub fn select_previous(&mut self)
        ensures
            *final(self) == (ListCursor { selected: row_above(old(self).selected), ..*old(self) }),
    {
        if self.selected > 0 {
            self.selected -= 1;
        }
    }
}

/// The offset of the page after the one at `offset`, in a list of `total`
/// rows shown `page_size` to the page: one page on if the list reaches that
/// far, else where it is.
pub open spec fn page_after(offset: usize, total: usize, page_size: usize) -> usize {
    if offset + page_size <= total {
        (offset + page_size) as usize
    } else {
        offset
    }
}

/// The offset of the page before the one at `offset`: one page back, as far
/// as the start.
pub open spec fn page_before(offset: usize, page_size: usize) -> usize {
    if offset >= page_size {
        (offset - page_size) as usize
    } else {
        0
    }
}

/// The offset of the page after the one at `offset`.
pub fn next_page_offset(offset: usize, total: usize, page_size: usize) -> (next: usize)
    ensures
        next == page_after(offset, total, page_size),
{
    if page_size <= total && offset <= total - page_size {
        offset + page_size
    } else {
        offset
    }
}

/// The offset of the page before the one at `offset`.
pub fn prev_page_offset(offset: usize, page_size: usize) -> (prev: usize)
    ensures
        prev == page_before(offset, page_size),
{
    if offset >= page_size {
        offset - page_size
    } else {
        0
    }
}

/// Which screen is shown, which one the player screen was entered from,
/// whether the leader key has been pressed and awaits its second key, and
/// whether the application is to end.
#[derive(Debug, Clone, Copy, PartialEq, Eq, Structural)]
pub struct Navigator {
    pub state: State,
    pub prev_state: Option<State>,
    pub awaiting: bool,
    pub exit: bool,
}

/// Whether a key was taken by the navigation or is left for the screen on
/// show.
#[derive(Debug, Clone, Copy, PartialEq, Eq, Structural)]
pub enum KeyRoute {
    Taken,
    ForScreen,
}

/// Where the key `key`, pressed after the leader, leads from `at`. The
/// bindings are tried in the order home, search, playlists, history,
/// player, quit; a key bound to none of them leads nowhere.
pub open spec fn led_by(at: Navigator, keys: KeyConfig, key: char) -> Navigator {
    if key == keys.navigation.home {
        Navigator { state: State::Home, ..at }
    } else if key == keys.navigation.search {
        Navigator { state: State::Search, ..at }
    } else if key == keys.navigation.userplaylist {
        Navigator { state: State::UserPlaylist, ..at }
    } else if key == keys.navigation.history {
        Navigator { state: State::History, ..at }
    } else if key == keys.navigation.player {
        Navigator {
            state: State::SongPlayer,
            prev_state: if at.state != State::SongPlayer {
                Some(at.state)
            } else {
                at.prev_state
            },
            ..at
        }
    } else if key == keys.navigation.quit {
        Navigator { exit: true, ..at }
    } else {
        at
    }
}

/// The navigation after a key press. `key` is the character pressed, if the
/// key has one; `typing` says that the screen on show is taking text.
///
/// The key after the leader is followed, whatever it is. The leader itself
/// is taken unless text is being typed. Any other key is the screen's.
pub open spec fn pressed(at: Navigator, keys: KeyConfig, key: Option<char>, typing: bool) -> (
    Navigator,
    KeyRoute,
) {
    if at.awaiting {
        let settled = Navigator { awaiting: false, ..at };
        match key {
            Some(c) => (led_by(settled, keys, c), KeyRoute::Taken),
            None => (settled, KeyRoute::Taken),
        }
    } else if key == Some(keys.leader) && !typing {
        (Navigator { awaiting: true, ..at }, KeyRoute::Taken)
    } else {
        (at, KeyRoute::ForScreen)
    }
}

impl Navigator {
    /// The application at its start: on the home screen.
    pub fn new() -> (at: Self)
        ensures
            at == (Navigator { state: State::Home, prev_state: None, awaiting: false, exit: false }),
    {
        Navigator { state: State::Home, prev_state: None, awaiting: false, exit: false }
    }

    /// Follows the key `key`, pressed after the leader.
    pub fn follow(&mut self, keys: &KeyConfig, key: char)
        ensures
            *final(self) == led_by(*old(self), *keys, key),
    {
        if key == keys.navigation.home {
            self.state = State::Home;
        } else if key == keys.navigation.search {
            self.state = State::Search;
        } else if key == keys.navigation.userplaylist {
            self.state = State::UserPlaylist;
        } else if key == keys.navigation.history {
            self.state = State::History;
        } else if key == keys.navigation.player {
            if self.state != State::SongPlayer {
                self.prev_state = Some(self.state);
            }
            self.state = State::SongPlayer;
        } else if key == keys.navigation.quit {
            self.exit = true;
        }
    }

    /// Takes a key press and says whose it is.
    pub fn press(&mut self, keys: &KeyConfig, key: Option<char>, typing: bool) -> (route: KeyRoute)
        ensures
            (*final(self), route) == pressed(*old(self), *keys, key, typing),
    {
        if self.awaiting {
            self.awaiting = false;
            match key {
                Some(c) => {
                    self.follow(keys, c);
                },
                None => {},
            }
            KeyRoute::Taken
        } else {
            match key {
                Some(c) => {
                    if c == keys.leader && !typing {
                        self.awaiting = true;
                        KeyRoute::Taken
                    } else {
                        KeyRoute::ForScreen
                    }
                },
                None => KeyRoute::ForScreen,
            }
        }
    }
}

/// A long list on view one page at a time: how many rows it has, how many
/// make a page, where the page on view starts, and the cursor within that
/// page.
#[derive(Debug, Clone, Copy, PartialEq, Eq, Structural)]
pub struct PagedList {
    pub total: usize,
    pub page_size: usize,
    pub offset: usize,
    pub cursor: ListCursor,
}

/// How many rows the page at `offset` has, in a list of `total` rows shown
/// `page_size` to the page.
pub open spec fn rows_on_page(total: usize, page_size: usize, offset: usize) -> usize {
    if offset >= total {
        0
    } else if total - offset < page_size {
        (total - offset) as usize
    } else {
        page_size
    }
}

/// The list with the page at `offset` on view and the cursor on its first
/// row.
pub open spec fn turned_to(list: PagedList, offset: usize) -> PagedList {
    PagedList {
        offset,
        cursor: ListCursor { selected: 0, max_len: rows_on_page(list.total, list.page_size, offset) },
        ..list
    }
}

/// The list after a turn forward: one page on if that page has a row, else
/// as it is.
pub open spec fn turned_forward(list: PagedList) -> PagedList {
    let next = page_after(list.offset, list.total, list.page_size);
    if next != list.offset && next < list.total {
        turned_to(list, next)
    } else {
        list
    }
}

/// The list after a turn back: one page back, as far as the first page; on
/// the first page as it is.
pub open spec fn turned_back(list: PagedList) -> PagedList {
    let prev = page_before(list.offset, list.page_size);
    if prev != list.offset {
        turned_to(list, prev)
    } else {
        list
    }
}

/// The row of the whole list that the cursor is on, if it is on one.
pub open spec fn row_selected(list: PagedList) -> Option<usize> {
    if list.offset + list.cursor.selected < list.total {
        Some((list.offset + list.cursor.selected) as usize)
    } else {
        None
    }
}

impl PagedList {
    /// A list of `total` rows with its first page on view.
    pub fn new(total: usize, page_size: usize) -> (list: Self)
        ensures
            list == turned_to(
                PagedList { total, page_size, offset: 0, cursor: ListCursor { selected: 0, max_len: 0 } },
                0,
            ),
    {
        let mut list = PagedList { total, page_size, offset: 0, cursor: ListCursor::new(0) };
        list.cursor = ListCursor::new(list.page_len());
        list
    }

    /// How many rows the page on view has.
    pub fn page_len(&self) -> (n: usize)
        ensures
            n == rows_on_page(self.total, self.page_size, self.offset),
    {
        if self.offset >= self.total {
            0
        } else if self.total - self.offset < self.page_size {
            self.total - self.offset
        } else {
            self.page_size
        }
    }

    /// The rows of the whole list that the page on view shows: from the
    /// first, up to and not including the second.
    pub fn page_bounds(&self) -> (bounds: (usize, usize))
        ensures
            bounds.0 <= bounds.1 <= self.total,
            bounds.1 - bounds.0 == rows_on_page(self.total, self.page_size, self.offset),
            self.offset < self.total ==> bounds.0 == self.offset,
    {
        if self.offset >= self.total {
            (self.total, self.total)
        } else {
            (self.offset, self.offset + self.page_len())
        }
    }

    /// Turns one page forward, if there is a page there.
    pub fn next_page(&mut self)
        ensures
            *final(self) == turned_forward(*old(self)),
    {
        let next = next_page_offset(self.offset, self.total, self.page_size);
        if next != self.offset && next < self.total {
            self.offset = next;
            self.cursor = ListCursor::new(self.page_len());
        }
    }

    /// Turns one page back, if there is a page there.
    pub fn prev_page(&mut self)
        ensures
            *final(self) == turned_back(*old(self)),
    {
        let prev = prev_page_offset(self.offset, self.page_size);
        if prev != self.offset {
            self.offset = prev;
            self.cursor = ListCursor::new(self.page_len());
        }
    }

    /// The row of the whole list that the cursor is on, if it is on one.
    pub fn selected_index(&self) -> (row: Option<usize>)
        ensures
            row == row_selected(*self),
    {
        if self.cursor.selected < self.total && self.offset < self.total - self.cursor.selected {
            Some(self.offset + self.cursor.selected)
        } else {
            None
        }
    }
}

} // verus!
