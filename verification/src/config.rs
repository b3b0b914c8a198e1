//! The user's configuration: colours and icons, and the keys that drive
//! the screens. Reading and writing the files is the caller's business;
//! what is fixed here is what the settings are and what they default to.

use vstd::prelude::*;

verus! {

/// Colours, as red, green and blue, and the icons of the player bar.
#[derive(Debug)]
pub struct USERCONFIG {
    pub bg_color: (u8, u8, u8),
    pub text_color: (u8, u8, u8),
    pub play_icon: String,
    pub pause_icon: String,
    pub selected_list_item: (u8, u8, u8),
    pub selected_item_char: String,
    pub selected_tab_color: (u8, u8, u8),
    pub player_progress_bar_color: (u8, u8, u8),
    pub player_volume_bar_color: (u8, u8, u8),
    pub selected_mode_text_color: (u8, u8, u8),
}

/// What a [`USERCONFIG`] is, as plain values.
pub struct ConfigView {
    pub bg_color: (u8, u8, u8),
    pub text_color: (u8, u8, u8),
    pub play_icon: Seq<char>,
    pub pause_icon: Seq<char>,
    pub selected_list_item: (u8, u8, u8),
    pub selected_item_char: Seq<char>,
    pub selected_tab_color: (u8, u8, u8),
    pub player_progress_bar_color: (u8, u8, u8),
    pub player_volume_bar_color: (u8, u8, u8),
    pub selected_mode_text_color: (u8, u8, u8),
}

impl View for USERCONFIG {
    type V = ConfigView;

    open spec fn view(&self) -> ConfigView {
        ConfigView {
            bg_color: self.bg_color,
            text_color: self.text_color,
            play_icon: self.play_icon@,
            pause_icon: self.pause_icon@,
            selected_list_item: self.selected_list_item,
            selected_item_char: self.selected_item_char@,
            selected_tab_color: self.selected_tab_color,
            player_progress_bar_color: self.player_progress_bar_color,
            player_volume_bar_color: self.player_volume_bar_color,
            selected_mode_text_color: self.selected_mode_text_color,
        }
    }
}

/// The configuration of a fresh installation.
pub open spec fn default_config() -> ConfigView {
    ConfigView {
        bg_color: (29, 32, 33),
        text_color: (235, 219, 178),
        play_icon: "▶"@,
        pause_icon: "❚❚"@,
        selected_list_item: (60, 56, 54),
        selected_item_char: ">"@,
        selected_tab_color: (250, 189, 47),
        player_progress_bar_color: (214, 93, 14),
        player_volume_bar_color: (152, 151, 26),
        selected_mode_text_color: (152, 151, 26),
    }
}

impl Default for USERCONFIG {
    fn default() -> (config: Self)
        ensures
            config@ == default_config(),
    {
        Self {
            bg_color: (29, 32, 33),
            text_color: (235, 219, 178),
            play_icon: "▶".to_string(),
            pause_icon: "❚❚".to_string(),
            selected_list_item: (60, 56, 54),
            selected_item_char: ">".to_string(),
            selected_tab_color: (250, 189, 47),
            player_progress_bar_color: (214, 93, 14),
            player_volume_bar_color: (152, 151, 26),
            selected_mode_text_color: (152, 151, 26),
        }
    }
}

impl Clone for USERCONFIG {
    fn clone(&self) -> (copy: Self)
        ensures
            copy@ == self@,
    {
        Self {
            bg_color: self.bg_color,
            text_color: self.text_color,
            play_icon: self.play_icon.clone(),
            pause_icon: self.pause_icon.clone(),
            selected_list_item: self.selected_list_item,
            selected_item_char: self.selected_item_char.clone(),
            selected_tab_color: self.selected_tab_color,
            player_progress_bar_color: self.player_progress_bar_color,
            player_volume_bar_color: self.player_volume_bar_color,
            selected_mode_text_color: self.selected_mode_text_color,
        }
    }
}

/// Why a configuration could not be had.
#[derive(Debug)]
pub enum USERCONFIGERROR {
    /// The file does not spell a configuration.
    ValidInputError,
    /// The file could not be read or written.
    IOERROR(std::io::Error),
}

/// The keys that lead from screen to screen, each pressed after the leader.
#[derive(Debug, Clone, Copy, PartialEq, Eq, Structural)]
pub struct Navigation {
    pub home: char,
    pub quit: char,
    pub search: char,
    pub player: char,
    pub history: char,
    pub userplaylist: char,
}

/// The keys that every list answers to unless a screen binds its own.
#[derive(Debug, Clone, Copy, PartialEq, Eq, Structural)]
pub struct DefaultControl {
    pub up: char,
    pub down: char,
    pub next_page: char,
    pub prev_page: char,
    pub add_to_playlist: char,
    pub play_song: char,
}

/// The history screen's own keys; `None` leaves the default in force.
#[derive(Debug, Clone, Copy, PartialEq, Eq, Structural)]
pub struct HistoryKeyBindings {
    pub up: Option<char>,
    pub down: Option<char>,
    pub next: Option<char>,
    pub prev: Option<char>,
    pub add_to_playlist: Option<char>,
    pub play_song: Option<char>,
}

/// The keys of the box in which a playlist is searched for.
#[derive(Debug, Clone, Copy, PartialEq, Eq, Structural)]
pub struct PlayListSearchKeyBindings {
    pub switch_mode: Option<char>,
    pub select_playlist: Option<char>,
}

/// The keys of the box that lists a playlist's tracks.
#[derive(Debug, Clone, Copy, PartialEq, Eq, Structural)]
pub struct PlayListViewKeyBindings {
    pub start_playlist: char,
    pub start_from_here: char,
    pub next_page: Option<char>,
    pub prev_page: Option<char>,
}

/// The keys of the playlist search.
#[derive(Debug, Clone, Copy, PartialEq, Eq, Structural)]
pub struct PlaylistKeyBindings {
    pub switch_mode: char,
    pub playlist_search: PlayListSearchKeyBindings,
    pub view_playlist: PlayListViewKeyBindings,
}

/// The keys of the song search.
#[derive(Debug, Clone, Copy, PartialEq, Eq, Structural)]
pub struct SongSearchKeyBinding {
    pub switch_mode: Option<char>,
}

/// The keys of the search screen.
#[derive(Debug, Clone, Copy, PartialEq, Eq, Structural)]
pub struct SearchKeyBindings {
    pub switch: char,
    pub up: Option<char>,
    pub down: Option<char>,
    pub playlist: PlaylistKeyBindings,
    pub song: SongSearchKeyBinding,
}

/// The keys of the player bar.
#[derive(Debug, Clone, Copy, PartialEq, Eq, Structural)]
pub struct PlayerKeyBindings {
    pub pause: char,
    pub skip_plus_secs: char,
    pub skip_minus_secs: char,
    pub playlist_next_song: char,
    pub playlist_prev_song: char,
    pub volume_up: char,
    pub volume_down: char,
}

/// All key bindings.
#[derive(Debug, Clone, Copy, PartialEq, Eq, Structural)]
pub struct KeyConfig {
    pub leader: char,
    pub navigation: Navigation,
    pub history: HistoryKeyBindings,
    pub default: DefaultControl,
    pub search: SearchKeyBindings,
    pub player: PlayerKeyBindings,
}

/// The navigation keys of a fresh installation.
pub open spec fn default_navigation() -> Navigation {
    Navigation { home: ';', quit: 'q', search: 's', player: 'p', history: 'h', userplaylist: 'u' }
}

/// The list keys of a fresh installation.
pub open spec fn default_control() -> DefaultControl {
    DefaultControl {
        up: 'k',
        down: 'j',
        next_page: 'l',
        prev_page: 'h',
        add_to_playlist: 'a',
        play_song: 'p',
    }
}

/// The history keys of a fresh installation: none of its own.
pub open spec fn default_history_keys() -> HistoryKeyBindings {
    HistoryKeyBindings {
        up: None,
        down: None,
        next: None,
        prev: None,
        add_to_playlist: None,
        play_song: None,
    }
}

/// The playlist search keys of a fresh installation.
pub open spec fn default_playlist_keys() -> PlaylistKeyBindings {
    PlaylistKeyBindings {
        switch_mode: '[',
        playlist_search: PlayListSearchKeyBindings { switch_mode: None, select_playlist: None },
        view_playlist: PlayListViewKeyBindings {
            start_playlist: 'p',
            start_from_here: 'a',
            next_page: None,
            prev_page: None,
        },
    }
}

/// The search keys of a fresh installation.
pub open spec fn default_search_keys() -> SearchKeyBindings {
    SearchKeyBindings {
        switch: ';',
        up: None,
        down: None,
        playlist: default_playlist_keys(),
        song: SongSearchKeyBinding { switch_mode: None },
    }
}

/// The player keys of a fresh installation.
pub open spec fn default_player_keys() -> PlayerKeyBindings {
    PlayerKeyBindings {
        pause: ';',
        skip_plus_secs: 'l',
        skip_minus_secs: 'l',
        playlist_next_song: 'n',
        playlist_prev_song: 'p',
        volume_up: '+',
        volume_down: '-',
    }
}

/// The key bindings of a fresh installation.
pub open spec fn default_keys() -> KeyConfig {
    KeyConfig {
        leader: ':',
        navigation: default_navigation(),
        history: default_history_keys(),
        default: default_control(),
        search: default_search_keys(),
        player: default_player_keys(),
    }
}

impl Default for Navigation {
    fn default() -> (keys: Self)
        ensures
            keys == default_navigation(),
    {
        Self { home: ';', quit: 'q', search: 's', player: 'p', history: 'h', userplaylist: 'u' }
    }
}

impl Default for DefaultControl {
    fn default() -> (keys: Self)
        ensures
            keys == default_control(),
    {
        Self {
            up: 'k',
            down: 'j',
            next_page: 'l',
            prev_page: 'h',
            add_to_playlist: 'a',
            play_song: 'p',
        }
    }
}

impl Default for HistoryKeyBindings {
    fn default() -> (keys: Self)
        ensures
            keys == default_history_keys(),
    {
        Self { up: None, down: None, next: None, prev: None, add_to_playlist: None, play_song: None }
    }
}

impl Default for PlayListSearchKeyBindings {
    fn default() -> (keys: Self)
        ensures
            keys == default_playlist_keys().playlist_search,
    {
        Self { switch_mode: None, select_playlist: None }
    }
}

impl Default for PlayListViewKeyBindings {
    fn default() -> (keys: Self)
        ensures
            keys == default_playlist_keys().view_playlist,
    {
        Self { start_playlist: 'p', start_from_here: 'a', next_page: None, prev_page: None }
    }
}

impl Default for PlaylistKeyBindings {
    fn default() -> (keys: Self)
        ensures
            keys == default_playlist_keys(),
    {
        Self {
            switch_mode: '[',
            playlist_search: PlayListSearchKeyBindings::default(),
            view_playlist: PlayListViewKeyBindings::default(),
        }
    }
}

impl Default for SongSearchKeyBinding {
    fn default() -> (keys: Self)
        ensures
            keys == default_search_keys().song,
    {
        Self { switch_mode: None }
    }
}

impl Default for SearchKeyBindings {
    fn default() -> (keys: Self)
        ensures
            keys == default_search_keys(),
    {
        Self {
            switch: ';',
            up: None,
            down: None,
            playlist: PlaylistKeyBindings::default(),
            song: SongSearchKeyBinding::default(),
        }
    }
}

impl Default for PlayerKeyBindings {
    fn default() -> (keys: Self)
        ensures
            keys == default_player_keys(),
    {
        Self {
            pause: ';',
            skip_plus_secs: 'l',
            skip_minus_secs: 'l',
            playlist_next_song: 'n',
            playlist_prev_song: 'p',
            volume_up: '+',
            volume_down: '-',
        }
    }
}

impl Default for KeyConfig {
    fn default() -> (keys: Self)
        ensures
            keys == default_keys(),
    {
        Self {
            leader: ':',
            navigation: Navigation::default(),
            history: HistoryKeyBindings::default(),
            default: DefaultControl::default(),
            search: SearchKeyBindings::default(),
            player: PlayerKeyBindings::default(),
        }
    }
}

} // verus!
