//! The pollers that keep the session in step with the media player.
//!
//! The player offers no notifications, so it is polled. Each poller here is
//! a small state machine that is fed one observation per call and changes
//! the session accordingly; the waiting between polls, and the polling
//! itself, are the caller's.

use crate::config::PlayerKeyBindings;
use crate::profile::{counts_second, update_outcome, UserProfileDb, UserProfileError};
use crate::session::{
    advances, Backend, BackendError, DetailsView, Direction, PlayRequest, SessionView, SongState,
    CONFIRM_IDLE_POLLS, END_IDLE_POLLS,
};
use vstd::prelude::*;

verus! {

/// The watch for the end of a playlist's track: whether the player has been
/// seen playing since the last move, and for how many polls in a row it has
/// been silent since.
#[derive(Debug)]
pub struct SongPlayer {
    was_playing: bool,
    idle_count: u32,
}

/// What a [`SongPlayer`] is, as plain values.
pub struct WatchView {
    pub was_playing: bool,
    pub idle_count: u32,
}

impl View for SongPlayer {
    type V = WatchView;

    closed spec fn view(&self) -> WatchView {
        WatchView { was_playing: self.was_playing, idle_count: self.idle_count }
    }
}

/// The watch at its start: it takes the player to have been playing.
pub open spec fn fresh_watch() -> WatchView {
    WatchView { was_playing: true, idle_count: 0 }
}

/// A count of silent polls after one more, up to `limit`.
pub open spec fn counted(idle_count: u32, limit: u32) -> u32 {
    if idle_count < limit {
        (idle_count + 1) as u32
    } else {
        idle_count
    }
}

/// Whether the playlist is to move on at this poll: playlist mode is on,
/// the player is silent, it has been seen playing since the last move, this
/// is the [`END_IDLE_POLLS`]-th silent poll in a row, and the session is
/// neither loading nor in error.
pub open spec fn track_ended(
    watch: WatchView,
    playlist_mode: bool,
    is_playing: bool,
    state: SongState,
) -> bool {
    &&& playlist_mode
    &&& !is_playing
    &&& watch.was_playing
    &&& counted(watch.idle_count, END_IDLE_POLLS) >= END_IDLE_POLLS
    &&& (state == SongState::Playing || state == SongState::Idle)
}

/// The watch after a poll.
pub open spec fn watch_after(
    watch: WatchView,
    playlist_mode: bool,
    is_playing: bool,
    state: SongState,
) -> WatchView {
    if !playlist_mode {
        watch
    } else if is_playing {
        WatchView { was_playing: true, idle_count: 0 }
    } else if !watch.was_playing {
        watch
    } else if track_ended(watch, playlist_mode, is_playing, state) {
        WatchView { was_playing: false, idle_count: 0 }
    } else {
        WatchView { was_playing: true, idle_count: counted(watch.idle_count, END_IDLE_POLLS) }
    }
}

/// In playlist mode, with the session playing or idle, a player that has
/// been seen playing and falls silent has its track found ended by the
/// [`END_IDLE_POLLS`]-th silent poll at the latest.
pub proof fn lemma_silence_ends_track(watch: WatchView, state: SongState)
    requires
        watch.was_playing,
        state == SongState::Playing || state == SongState::Idle,
    ensures
        ({
            let second = watch_after(watch, true, false, state);
            let third = watch_after(second, true, false, state);
            ||| track_ended(watch, true, false, state)
            ||| track_ended(second, true, false, state)
            ||| track_ended(third, true, false, state)
        }),
{
}

/// A watch whose request still stands lets the session lapse exactly at the
/// silent poll that is the [`CONFIRM_IDLE_POLLS`]-th in a row.
pub proof fn lemma_lapse_at_limit(watch: ConfirmerView, session: SessionView)
    requires
        watch.epoch == session.epoch,
    ensures
        confirmation(watch, session, false) == Confirmation::Lapsed <==> watch.idle_count
            >= CONFIRM_IDLE_POLLS - 1,
        confirmation(watch, session, false) != Confirmation::Lapsed ==> confirmer_after(
            watch,
            session,
            false,
        ).idle_count == watch.idle_count + 1,
        confirmer_after(watch, session, true).idle_count == 0,
{
}

/// The watch for one request to start playing: the request it was started
/// for, and for how many polls in a row the player has been silent.
#[derive(Debug)]
pub struct PlayingConfirmer {
    epoch: u64,
    idle_count: u32,
}

/// What a [`PlayingConfirmer`] is, as plain values.
pub struct ConfirmerView {
    pub epoch: u64,
    pub idle_count: u32,
}

impl View for PlayingConfirmer {
    type V = ConfirmerView;

    closed spec fn view(&self) -> ConfirmerView {
        ConfirmerView { epoch: self.epoch, idle_count: self.idle_count }
    }
}

/// What a poll of a [`PlayingConfirmer`] found.
#[derive(Debug, Clone, Copy, PartialEq, Eq, Structural)]
pub enum Confirmation {
    /// Nothing new; poll again.
    Waiting,
    /// The track was seen to play for the first time: the session is
    /// playing, and the details are to be taken. Poll again.
    Confirmed,
    /// The player has been silent for [`CONFIRM_IDLE_POLLS`] polls: the
    /// session is idle. The watch is over.
    Lapsed,
    /// A later request has been made. The session is left alone, and the
    /// watch is over.
    Superseded,
}

/// What a poll of the confirmer `watch` finds in `session`.
pub open spec fn confirmation(
    watch: ConfirmerView,
    session: SessionView,
    is_playing: bool,
) -> Confirmation {
    if watch.epoch != session.epoch {
        Confirmation::Superseded
    } else if is_playing {
        if session.state != SongState::Playing {
            Confirmation::Confirmed
        } else {
            Confirmation::Waiting
        }
    } else if counted(watch.idle_count, CONFIRM_IDLE_POLLS) >= CONFIRM_IDLE_POLLS {
        Confirmation::Lapsed
    } else {
        Confirmation::Waiting
    }
}

/// The session after a poll of a confirmer found `found`.
pub open spec fn confirmed_session(session: SessionView, found: Confirmation) -> SessionView {
    match found {
        Confirmation::Waiting => session,
        Confirmation::Superseded => session,
        Confirmation::Confirmed => SessionView { state: SongState::Playing, ..session },
        Confirmation::Lapsed => SessionView { state: SongState::Idle, details: None, ..session },
    }
}

/// The confirmer after a poll.
pub open spec fn confirmer_after(
    watch: ConfirmerView,
    session: SessionView,
    is_playing: bool,
) -> ConfirmerView {
    if watch.epoch != session.epoch {
        watch
    } else if is_playing {
        ConfirmerView { idle_count: 0, ..watch }
    } else {
        ConfirmerView { idle_count: counted(watch.idle_count, CONFIRM_IDLE_POLLS), ..watch }
    }
}

impl PlayingConfirmer {
    /// Feeds the watch one observation of the player.
    ///
    /// A poll that finds the player playing confirms the request; the
    /// [`CONFIRM_IDLE_POLLS`]-th poll in a row that finds it silent lets the
    /// session lapse to idle. A watch whose request has been superseded
    /// leaves the session alone.
    pub fn poll(&mut self, backend: &mut Backend, is_playing: bool) -> (found: Confirmation)
        ensures
            found == confirmation(old(self)@, old(backend)@, is_playing),
            final(self)@ == confirmer_after(old(self)@, old(backend)@, is_playing),
            final(backend)@ == confirmed_session(old(backend)@, found),
    {
        if self.epoch != backend.epoch() {
            return Confirmation::Superseded;
        }
        if is_playing {
            self.idle_count = 0;
            if backend.confirm_playing() {
                Confirmation::Confirmed
            } else {
                Confirmation::Waiting
            }
        } else {
            if self.idle_count < CONFIRM_IDLE_POLLS {
                self.idle_count += 1;
            }
            if self.idle_count >= CONFIRM_IDLE_POLLS {
                backend.playback_lapsed();
                Confirmation::Lapsed
            } else {
                Confirmation::Waiting
            }
        }
    }
}

impl SongPlayer {
    /// A watch at its start.
    pub fn new() -> (watch: Self)
        ensures
            watch@ == fresh_watch(),
    {
        SongPlayer { was_playing: true, idle_count: 0 }
    }

    /// Counts one more second of listening if the player is playing.
    /// Returns whether it was counted. A player that is not playing leaves
    /// the profile alone; otherwise the outcome is that of
    /// [`UserProfileDb::add_time`].
    pub fn add_time(profile: &mut UserProfileDb, is_playing: bool) -> (r: Result<
        bool,
        UserProfileError,
    >)
        ensures
            !is_playing ==> (r matches Ok(false)) && final(profile)@ == old(profile)@,
            is_playing ==> !(r matches Ok(false)) && update_outcome(
                old(profile)@,
                final(profile)@,
                counts_second(),
                match r {
                    Ok(_) => Ok(()),
                    Err(e) => Err(e),
                },
            ),
    {
        if is_playing {
            match profile.add_time() {
                Ok(()) => Ok(true),
                Err(e) => Err(e),
            }
        } else {
            Ok(false)
        }
    }

    /// Takes the second of the track that the player has reached into the
    /// details on show. Without details nothing happens.
    pub fn observe_time(backend: &mut Backend, seconds: u64)
        ensures
            final(backend)@ == (SessionView {
                details: match old(backend)@.details {
                    Some(shown) => Some(DetailsView { current_time: seconds, ..shown }),
                    None => None,
                },
                ..old(backend)@
            }),
    {
        match backend.details_mut() {
            Some(shown) => {
                shown.set_current_time(seconds);
            },
            None => {},
        }
    }

    /// Feeds the watch one observation of the player, and moves the
    /// playlist on where its track has ended.
    ///
    /// The track has ended when [`track_ended`] says so. The session then
    /// goes on as by [`Backend::next_song_playlist`], whose request is
    /// returned. At any other poll the session is left alone.
    pub fn observe_song_end(&mut self, backend: &mut Backend, is_playing: bool) -> (r: Result<
        Option<PlayRequest>,
        BackendError,
    >)
        ensures
            final(self)@ == watch_after(
                old(self)@,
                old(backend)@.is_playlist_mode,
                is_playing,
                old(backend)@.state,
            ),
            if track_ended(
                old(self)@,
                old(backend)@.is_playlist_mode,
                is_playing,
                old(backend)@.state,
            ) {
                advances(old(backend)@, final(backend)@, Direction::Next, r)
            } else {
                (r matches Ok(None)) && final(backend)@ == old(backend)@
            },
    {
        if !backend.is_playlist_mode() {
            return Ok(None);
        }
        if is_playing {
            self.was_playing = true;
            self.idle_count = 0;
            return Ok(None);
        }
        if !self.was_playing {
            return Ok(None);
        }
        if self.idle_count < END_IDLE_POLLS {
            self.idle_count += 1;
        }
        if self.idle_count >= END_IDLE_POLLS {
            let state = backend.state();
            if state == SongState::Playing || state == SongState::Idle {
                self.was_playing = false;
                self.idle_count = 0;
                return backend.next_song_playlist();
            }
        }
        Ok(None)
    }

    /// Starts the watch for the request that the session has made last.
    pub fn check_playing(backend: &Backend) -> (watch: PlayingConfirmer)
        ensures
            watch@ == (ConfirmerView { epoch: backend@.epoch, idle_count: 0 }),
    {
        PlayingConfirmer { epoch: backend.epoch(), idle_count: 0 }
    }
}

/// A key of the player bar, whatever it is bound to on the keyboard.
#[derive(Debug, Clone, Copy, PartialEq, Eq, Structural)]
pub enum PlayerKey {
    NextSong,
    PreviousSong,
    VolumeUp,
    VolumeDown,
    Pause,
    SkipForward,
    SkipBackward,
    Other,
}

/// The key of the player bar that the character `c` is bound to under
/// `keys`. Where a character is bound to several keys, the first of pause,
/// next, previous, volume up, volume down, skip forward and skip backward
/// has it.
pub open spec fn bound_key(keys: PlayerKeyBindings, c: char) -> PlayerKey {
    if c == ' ' || c == keys.pause {
        PlayerKey::Pause
    } else if c == keys.playlist_next_song {
        PlayerKey::NextSong
    } else if c == keys.playlist_prev_song {
        PlayerKey::PreviousSong
    } else if c == keys.volume_up {
        PlayerKey::VolumeUp
    } else if c == keys.volume_down {
        PlayerKey::VolumeDown
    } else if c == keys.skip_plus_secs {
        PlayerKey::SkipForward
    } else if c == keys.skip_minus_secs {
        PlayerKey::SkipBackward
    } else {
        PlayerKey::Other
    }
}

impl PlayerKey {
    /// The key of the player bar that the character `c` is bound to; the
    /// space bar always pauses.
    pub fn bound(keys: &PlayerKeyBindings, c: char) -> (key: PlayerKey)
        ensures
            key == bound_key(*keys, c),
    {
        if c == ' ' || c == keys.pause {
            PlayerKey::Pause
        } else if c == keys.playlist_next_song {
            PlayerKey::NextSong
        } else if c == keys.playlist_prev_song {
            PlayerKey::PreviousSong
        } else if c == keys.volume_up {
            PlayerKey::VolumeUp
        } else if c == keys.volume_down {
            PlayerKey::VolumeDown
        } else if c == keys.skip_plus_secs {
            PlayerKey::SkipForward
        } else if c == keys.skip_minus_secs {
            PlayerKey::SkipBackward
        } else {
            PlayerKey::Other
        }
    }
}

/// What the player bar does on a key.
#[derive(Debug, Clone, Copy, PartialEq, Eq, Structural)]
pub enum KeyAction {
    /// Nothing.
    Ignore,
    /// Go on to the next track of the playlist.
    Next,
    /// Go back to the previous track of the playlist.
    Previous,
    /// Ask the player to turn the volume up, then show its volume.
    RaiseVolume,
    /// Ask the player to turn the volume down, then show its volume.
    LowerVolume,
    /// Ask the player to pause or resume, then flip the pause mark.
    TogglePause,
    /// Ask the player to skip forward.
    SeekForward,
    /// Ask the player to skip backward.
    SeekBackward,
}

/// What the player bar does on `key`: nothing unless a track is playing;
/// the playlist keys nothing unless a playlist is being played.
pub open spec fn action_on(state: SongState, playlist_mode: bool, key: PlayerKey) -> KeyAction {
    if state != SongState::Playing {
        KeyAction::Ignore
    } else {
        match key {
            PlayerKey::NextSong => if playlist_mode {
                KeyAction::Next
            } else {
                KeyAction::Ignore
            },
            PlayerKey::PreviousSong => if playlist_mode {
                KeyAction::Previous
            } else {
                KeyAction::Ignore
            },
            PlayerKey::VolumeUp => KeyAction::RaiseVolume,
            PlayerKey::VolumeDown => KeyAction::LowerVolume,
            PlayerKey::Pause => KeyAction::TogglePause,
            PlayerKey::SkipForward => KeyAction::SeekForward,
            PlayerKey::SkipBackward => KeyAction::SeekBackward,
            PlayerKey::Other => KeyAction::Ignore,
        }
    }
}

impl SongPlayer {
    /// What the player bar does on `key` in the session `backend`.
    pub fn handle_keystrokes(backend: &Backend, key: PlayerKey) -> (action: KeyAction)
        ensures
            action == action_on(backend@.state, backend@.is_playlist_mode, key),
    {
        if backend.state() != SongState::Playing {
            return KeyAction::Ignore;
        }
        match key {
            PlayerKey::NextSong => if backend.is_playlist_mode() {
                KeyAction::Next
            } else {
                KeyAction::Ignore
            },
            PlayerKey::PreviousSong => if backend.is_playlist_mode() {
                KeyAction::Previous
            } else {
                KeyAction::Ignore
            },
            PlayerKey::VolumeUp => KeyAction::RaiseVolume,
            PlayerKey::VolumeDown => KeyAction::LowerVolume,
            PlayerKey::Pause => KeyAction::TogglePause,
            PlayerKey::SkipForward => KeyAction::SeekForward,
            PlayerKey::SkipBackward => KeyAction::SeekBackward,
            PlayerKey::Other => KeyAction::Ignore,
        }
    }
}

} // verus!
