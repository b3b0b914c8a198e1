//! The playback session: what is playing now, through which playlist, and
//! in which state the player is.
//!
//! The media player itself is an outside process. The session never talks
//! to it. Each operation takes what the player was observed to do and says
//! what to ask of it next: [`Backend::play_music`] hands out a
//! [`PlayRequest`], the caller performs it and reports the
//! [`PlayOutcome`] to [`Backend::play_issued`]. The pollers of
//! [`SongPlayer`] work the same way, one observation per call.

use crate::codec::song_decoding;
use crate::history::{first_play, HistoryEntry, HistoryError};
use crate::history_store::{play_outcome, records_play, HistoryDB};
use crate::keys::decimal_of;
use crate::playlist_store::PlaylistManagerError;
use crate::song::{Song, SongView};
use crate::songpage::{SongDatabase, SongError};
use crate::store::scan_of;
use crate::text::{clock_text, write_clock};
use vstd::arithmetic::div_mod::{lemma_add_mod_noop, lemma_mod_self_0, lemma_small_mod};
use vstd::prelude::*;
use vstd::string::StringExecFns;

verus! {

/// How many polls in a row must find the player silent before a playlist
/// moves on to its next track.
pub const END_IDLE_POLLS: u32 = 3;

/// How many polls in a row must find the player silent before a track that
/// was asked for is given up as not playing.
pub const CONFIRM_IDLE_POLLS: u32 = 10;

/// How often the length of a track is asked for again while the player
/// still reports none.
pub const DURATION_TRIES: usize = 3;

/// The state of the player, as far as the session knows it.
#[derive(Debug, Clone, Copy, PartialEq, Eq, Structural)]
pub enum SongState {
    /// Nothing is playing.
    Idle,
    /// A track is playing.
    Playing,
    /// A track has been asked for and is not known to play yet.
    Loading,
    /// The player refused a command.
    ErrorPlayingoSong,
}

/// Which way to move through a playlist.
#[derive(Debug, Clone, Copy, PartialEq, Eq, Structural)]
pub enum Direction {
    Next,
    Previous,
}

/// What to ask of the player in order to play a track: load `url`, and
/// repeat the track for ever exactly if `loop_track`.
#[derive(Debug)]
pub struct PlayRequest {
    pub url: String,
    pub loop_track: bool,
}

/// How the player took a [`PlayRequest`].
#[derive(Debug, Clone, Copy, PartialEq, Eq, Structural)]
pub enum PlayOutcome {
    /// It loaded the track and set the repeat flag.
    Played,
    /// It refused to load the track.
    PlayFailed,
    /// It loaded the track and refused to set the repeat flag.
    LoopFailed,
}

/// What can go wrong in the session.
#[derive(Debug)]
pub enum BackendError {
    /// The player refused a command.
    Mpv(String),
    /// No address could be had for a track.
    YoutubeFetch(String),
    /// The session's state could not be reached.
    MutexPoisoned(String),
    /// The play could not be recorded in the history.
    HistoryError(HistoryError),
    /// An outcome was reported for which nothing had been asked.
    PlaybackError(String),
    /// The page store of the active playlist failed.
    PlaylistError(SongError),
    /// The playlist store failed.
    UserPlayListError(PlaylistManagerError),
}

/// The track now playing, as the player bar shows it.
#[derive(Debug)]
pub struct SongDetails {
    song: Song,
    current_time: u64,
    total_duration: u64,
    tries: usize,
    current_volume: i64,
    pause: bool,
}

/// What a [`SongDetails`] is, as plain values: the track, the second
/// reached in it, its length in seconds, how often the length has been
/// asked for again, the volume and the pause mark.
pub struct DetailsView {
    pub song: SongView,
    pub current_time: u64,
    pub total_duration: u64,
    pub tries: usize,
    pub current_volume: i64,
    pub pause: bool,
}

impl View for SongDetails {
    type V = DetailsView;

    closed spec fn view(&self) -> DetailsView {
        DetailsView {
            song: self.song@,
            current_time: self.current_time,
            total_duration: self.total_duration,
            tries: self.tries,
            current_volume: self.current_volume,
            pause: self.pause,
        }
    }
}

/// The details of `song` as they are first shown: at second zero, with the
/// length, volume and pause mark that the player reported.
pub open spec fn first_shown(
    song: SongView,
    duration: u64,
    current_volume: i64,
    pause: bool,
) -> DetailsView {
    DetailsView {
        song,
        current_time: 0,
        total_duration: duration,
        tries: 0,
        current_volume,
        pause,
    }
}

/// Whether the details still lack the track's length and may ask for it
/// once more.
pub open spec fn lacks_duration(details: DetailsView) -> bool {
    details.tries < DURATION_TRIES && details.total_duration == 0
}

impl SongDetails {
    /// The details of `song` as they are first shown.
    pub fn new(song: Song, duration: u64, current_volume: i64, pause: bool) -> (details: Self)
        ensures
            details@ == first_shown(song@, duration, current_volume, pause),
    {
        SongDetails {
            song,
            current_time: 0,
            total_duration: duration,
            tries: 0,
            current_volume,
            pause,
        }
    }

    /// The track shown.
    pub fn song(&self) -> (song: &Song)
        ensures
            song@ == self@.song,
    {
        &self.song
    }

    /// The second of the track that the player has reached, and the
    /// track's length in seconds: what the progress bar is drawn from.
    pub fn progress(&self) -> (progress: (u64, u64))
        ensures
            progress == (self@.current_time, self@.total_duration),
    {
        (self.current_time, self.total_duration)
    }

    /// The second of the track that the player has reached, `MM:SS`.
    pub fn current_time(&self) -> (text: String)
        ensures
            text@ == clock_text(self@.current_time as nat),
    {
        write_clock(self.current_time)
    }

    /// The length of the track, `MM:SS`.
    pub fn total_duration(&self) -> (text: String)
        ensures
            text@ == clock_text(self@.total_duration as nat),
    {
        write_clock(self.total_duration)
    }

    /// The volume last reported.
    pub fn current_volume(&self) -> (volume: i64)
        ensures
            volume == self@.current_volume,
    {
        self.current_volume
    }

    /// The pause mark.
    pub fn pause(&self) -> (pause: bool)
        ensures
            pause == self@.pause,
    {
        self.pause
    }

    /// Whether the length should be asked for once more: none is known,
    /// and it has been asked for fewer than [`DURATION_TRIES`] times.
    pub fn wants_duration(&self) -> (wanted: bool)
        ensures
            wanted == lacks_duration(self@),
    {
        self.tries < DURATION_TRIES && self.total_duration == 0
    }

    /// Takes the length that the player reported on being asked again.
    pub fn retry_duration(&mut self, duration: u64)
        requires
            lacks_duration(old(self)@),
        ensures
            final(self)@ == (DetailsView {
                total_duration: duration,
                tries: (old(self)@.tries + 1) as usize,
                ..old(self)@
            }),
    {
        self.total_duration = duration;
        self.tries += 1;
    }

    /// Takes the second of the track that the player has reached.
    pub fn set_current_time(&mut self, seconds: u64)
        ensures
            final(self)@ == (DetailsView { current_time: seconds, ..old(self)@ }),
    {
        self.current_time = seconds;
    }

    /// Takes the volume that the player reported.
    pub fn set_volume(&mut self, volume: i64)
        ensures
            final(self)@ == (DetailsView { current_volume: volume, ..old(self)@ }),
    {
        self.current_volume = volume;
    }

    /// Flips the pause mark.
    pub fn toggle_pause(&mut self)
        ensures
            final(self)@ == (DetailsView { pause: !old(self)@.pause, ..old(self)@ }),
    {
        self.pause = !self.pause;
    }
}

/// The address at which the player finds the track `id`.
pub open spec fn media_url(id: Seq<char>) -> Seq<char> {
    "https://youtube.com/watch?v="@ + id
}

/// The index after `current` in a playlist of `length` tracks: one on, and
/// from the last track back to the first.
pub open spec fn next_index(current: usize, length: usize) -> usize
    recommends
        length > 0,
{
    ((current + 1) % (length as int)) as usize
}

/// The index before `current`: one back, and from the first track nowhere.
pub open spec fn previous_index(current: usize) -> usize {
    if current > 0 {
        (current - 1) as usize
    } else {
        0
    }
}

/// The index reached from `current` by going on `steps` times.
pub open spec fn advanced(current: usize, length: usize, steps: nat) -> usize
    decreases steps,
{
    if steps == 0 {
        current
    } else {
        next_index(advanced(current, length, (steps - 1) as nat), length)
    }
}

/// Going on `steps` times from an index within the playlist leads to the
/// index `steps` further, counted round the playlist.
pub proof fn lemma_advanced(current: usize, length: usize, steps: nat)
    requires
        current < length,
    ensures
        advanced(current, length, steps) == (current + steps) % (length as int),
    decreases steps,
{
    if steps == 0 {
        lemma_small_mod(current as nat, length as nat);
    } else {
        lemma_advanced(current, length, (steps - 1) as nat);
        lemma_add_mod_noop(current + steps - 1, 1, length as int);
        if length > 1 {
            lemma_small_mod(1, length as nat);
        }
    }
}

/// Going on through a playlist as many times as it has tracks leads back
/// to the track one started from.
pub proof fn lemma_full_round(current: usize, length: usize)
    requires
        current < length,
    ensures
        advanced(current, length, length as nat) == current,
{
    lemma_advanced(current, length, length as nat);
    lemma_add_mod_noop(current as int, length as int, length as int);
    lemma_mod_self_0(length as int);
    lemma_small_mod(current as nat, length as nat);
}

/// Going back from the first track leads nowhere.
pub proof fn lemma_first_stays()
    ensures
        previous_index(0) == 0,
{
}

/// The session, as plain values: the track last started, the state of the
/// player, whether a playlist is being played, the playlist's page store
/// and the index reached in it, the request that awaits its outcome, the
/// details on show, and the count of requests so far.
pub struct SessionView {
    pub current_track: Option<SongView>,
    pub state: SongState,
    pub is_playlist_mode: bool,
    pub active_playlist: Option<Map<Seq<u8>, Seq<u8>>>,
    pub current_playlist_index: Option<usize>,
    pub pending: Option<(SongView, bool)>,
    pub details: Option<DetailsView>,
    pub epoch: u64,
}

/// The session before anything was played.
pub open spec fn idle_session() -> SessionView {
    SessionView {
        current_track: None,
        state: SongState::Idle,
        is_playlist_mode: false,
        active_playlist: None,
        current_playlist_index: None,
        pending: None,
        details: None,
        epoch: 0,
    }
}

/// The count of requests after one more.
pub open spec fn next_epoch(epoch: u64) -> u64 {
    if epoch < u64::MAX {
        (epoch + 1) as u64
    } else {
        0
    }
}

/// The session after `song` has been asked for: loading, with the request
/// awaiting its outcome. A request that was still awaiting its outcome is
/// replaced.
pub open spec fn requested(session: SessionView, song: SongView, playlist_mode: bool) -> SessionView {
    SessionView {
        state: SongState::Loading,
        pending: Some((song, playlist_mode)),
        epoch: next_epoch(session.epoch),
        ..session
    }
}

/// The session after the player has taken the awaited request for `song`.
pub open spec fn started(session: SessionView, song: SongView, playlist_mode: bool) -> SessionView {
    SessionView {
        current_track: Some(song),
        is_playlist_mode: playlist_mode,
        active_playlist: if playlist_mode {
            session.active_playlist
        } else {
            None
        },
        current_playlist_index: if playlist_mode {
            session.current_playlist_index
        } else {
            None
        },
        pending: None,
        ..session
    }
}

/// The session after the player refused a command.
pub open spec fn failed(session: SessionView) -> SessionView {
    SessionView { state: SongState::ErrorPlayingoSong, pending: None, ..session }
}

/// The session after playlist mode has been left.
pub open spec fn without_playlist(session: SessionView) -> SessionView {
    SessionView {
        is_playlist_mode: false,
        active_playlist: None,
        current_playlist_index: None,
        ..session
    }
}

/// What to ask of the player for `song`: its address, and to repeat the
/// track unless it is played from a playlist.
pub open spec fn is_request_for(request: PlayRequest, song: SongView, playlist_mode: bool) -> bool {
    request.url@ == media_url(song.id) && request.loop_track == !playlist_mode
}

/// The playlist being played: its page store and the index reached.
struct ActivePlaylist {
    pages: SongDatabase,
    index: usize,
}

/// The playback session and its controller.
pub struct Backend {
    song: Option<Song>,
    state: SongState,
    is_playlist: bool,
    playlist: Option<ActivePlaylist>,
    pending: Option<(Song, bool)>,
    details: Option<SongDetails>,
    epoch: u64,
}

impl View for Backend {
    type V = SessionView;

    closed spec fn view(&self) -> SessionView {
        SessionView {
            current_track: match self.song {
                Some(song) => Some(song@),
                None => None,
            },
            state: self.state,
            is_playlist_mode: self.is_playlist,
            active_playlist: match self.playlist {
                Some(active) => Some(active.pages@),
                None => None,
            },
            current_playlist_index: match self.playlist {
                Some(active) => Some(active.index),
                None => None,
            },
            pending: match self.pending {
                Some((song, playlist_mode)) => Some((song@, playlist_mode)),
                None => None,
            },
            details: match self.details {
                Some(details) => Some(details@),
                None => None,
            },
            epoch: self.epoch,
        }
    }
}

impl Backend {
    /// A session has an index into its playlist exactly while it has a
    /// playlist.
    pub proof fn lemma_index_with_playlist(self)
        ensures
            self@.active_playlist is Some <==> self@.current_playlist_index is Some,
    {
    }

    /// A session in which nothing has been played.
    pub fn new() -> (session: Self)
        ensures
            session@ == idle_session(),
    {
        Backend {
            song: None,
            state: SongState::Idle,
            is_playlist: false,
            playlist: None,
            pending: None,
            details: None,
            epoch: 0,
        }
    }

    /// The state of the player, as far as the session knows it.
    pub fn state(&self) -> (state: SongState)
        ensures
            state == self@.state,
    {
        self.state
    }

    /// The track last started.
    pub fn current_song(&self) -> (song: Option<&Song>)
        ensures
            match song {
                Some(song) => self@.current_track == Some(song@),
                None => self@.current_track is None,
            },
    {
        self.song.as_ref()
    }

    /// Whether a playlist is being played.
    pub fn is_playlist_mode(&self) -> (on: bool)
        ensures
            on == self@.is_playlist_mode,
    {
        self.is_playlist
    }

    /// The index reached in the active playlist, if there is one.
    pub fn current_playlist_index(&self) -> (index: Option<usize>)
        ensures
            index == self@.current_playlist_index,
    {
        match &self.playlist {
            Some(active) => Some(active.index),
            None => None,
        }
    }

    /// The page store of the active playlist, if there is one.
    pub fn playlist(&self) -> (pages: Option<&SongDatabase>)
        ensures
            match pages {
                Some(pages) => self@.active_playlist == Some(pages@),
                None => self@.active_playlist is None,
            },
    {
        match &self.playlist {
            Some(active) => Some(&active.pages),
            None => None,
        }
    }

    /// The details on show, if a track is known to play.
    pub fn details(&self) -> (details: Option<&SongDetails>)
        ensures
            match details {
                Some(details) => self@.details == Some(details@),
                None => self@.details is None,
            },
    {
        self.details.as_ref()
    }

    /// The count of play requests so far. A poller that was started for an
    /// earlier request can tell by it that it is out of date.
    pub fn epoch(&self) -> (epoch: u64)
        ensures
            epoch == self@.epoch,
    {
        self.epoch
    }

    /// Asks for `song` to be played.
    ///
    /// The session is loading from now on, whatever it was doing: the
    /// latest request wins. What to ask of the player is returned; its
    /// outcome goes to [`Backend::play_issued`].
    pub fn play_music(&mut self, song: Song, playlist_song: bool) -> (request: PlayRequest)
        ensures
            final(self)@ == requested(old(self)@, song@, playlist_song),
            is_request_for(request, song@, playlist_song),
    {
        let url = String::from_str("https://youtube.com/watch?v=").concat(song.id.as_str());
        self.state = SongState::Loading;
        self.pending = Some((song, playlist_song));
        self.epoch = if self.epoch < u64::MAX {
            self.epoch + 1
        } else {
            0
        };
        PlayRequest { url, loop_track: !playlist_song }
    }

    /// Takes the outcome of the request that [`Backend::play_music`] handed
    /// out, at `now` seconds since the epoch.
    ///
    /// Without a request that awaits its outcome, `PlaybackError` is
    /// returned and nothing changes. Where the player did not load the
    /// track, the session is in its error state and the history is left
    /// alone. Else a play of the track at `now` is recorded in `history`,
    /// and the session goes on as [`Backend::play_recorded`] says. Where
    /// the history refuses, its error comes back as `HistoryError`, for the
    /// reason that [`HistoryDB::add_entry_at`] gives.
    pub fn play_issued(&mut self, outcome: PlayOutcome, history: &mut HistoryDB, now: u64) -> (r:
        Result<bool, BackendError>)
        ensures
            old(self)@.pending is None ==> {
                &&& r matches Err(BackendError::PlaybackError(_))
                &&& final(self)@ == old(self)@
                &&& final(history)@ == old(history)@
            },
            old(self)@.pending matches Some((song, playlist_mode)) ==> match r {
                Ok(mode) => {
                    &&& outcome == PlayOutcome::Played
                    &&& mode == playlist_mode
                    &&& final(self)@ == started(old(self)@, song, playlist_mode)
                    &&& records_play(old(history)@, final(history)@, first_play(song, now), now)
                },
                Err(BackendError::Mpv(_)) => {
                    &&& outcome != PlayOutcome::Played
                    &&& if outcome == PlayOutcome::PlayFailed {
                        final(self)@ == failed(old(self)@) && final(history)@ == old(history)@
                    } else {
                        &&& final(self)@ == failed(started(old(self)@, song, playlist_mode))
                        &&& records_play(
                            old(history)@,
                            final(history)@,
                            first_play(song, now),
                            now,
                        )
                    }
                },
                Err(BackendError::HistoryError(e)) => {
                    &&& outcome != PlayOutcome::PlayFailed
                    &&& final(self)@ == (SessionView {
                        current_track: Some(song),
                        pending: None,
                        ..old(self)@
                    })
                    &&& play_outcome(
                        old(history)@,
                        final(history)@,
                        first_play(song, now),
                        now,
                        Err::<(), HistoryError>(e),
                    )
                },
                Err(_) => false,
            },
    {
        let (song, playlist_mode) = match self.pending.take() {
            Some(pending) => pending,
            None => {
                return Err(
                    BackendError::PlaybackError("no request awaits an outcome".to_string()),
                );
            },
        };
        if outcome == PlayOutcome::PlayFailed {
            return self.play_recorded(song, playlist_mode, outcome, Ok(()));
        }
        let ghost track = song@;
        let ghost taken = self@;
        proof {
            assert(taken == (SessionView { pending: None, ..old(self)@ }));
        }
        let entry = HistoryEntry::from_song_at(song.clone(), now);
        let recorded = history.add_entry_at(&entry, now);
        let ghost told = recorded;
        let r = self.play_recorded(song, playlist_mode, outcome, recorded);
        proof {
            assert(play_outcome(old(history)@, history@, first_play(track, now), now, told));
            assert(started(taken, track, playlist_mode) == started(
                old(self)@,
                track,
                playlist_mode,
            ));
            assert(play_settled(old(self)@, self@, track, playlist_mode, outcome, told, r));
            assert(old(self)@.pending == Some((track, playlist_mode)));
        }
        r
    }

    /// Settles the request for `song` once the player's `outcome` and the
    /// history's answer `recorded` are known.
    ///
    /// - The player did not load the track: the session is in its error
    ///   state; `recorded` is not looked at.
    /// - The play could not be recorded: the track is the current one, the
    ///   session stays as it was otherwise, and the history's error is
    ///   returned.
    /// - The play is on record: the track is the current one, and the
    ///   session is in playlist mode exactly if `playlist_mode`; a track
    ///   outside a playlist ends the active playlist. Where the player
    ///   took the whole request, the mode is returned for the listeners to
    ///   hear; where it refused the repeat flag, the session is in its error
    ///   state.
    pub fn play_recorded(
        &mut self,
        song: Song,
        playlist_mode: bool,
        outcome: PlayOutcome,
        recorded: Result<(), HistoryError>,
    ) -> (r: Result<bool, BackendError>)
        ensures
            play_settled(old(self)@, final(self)@, song@, playlist_mode, outcome, recorded, r),
    {
        self.pending = None;
        if outcome == PlayOutcome::PlayFailed {
            self.state = SongState::ErrorPlayingoSong;
            return Err(BackendError::Mpv("the player did not load the track".to_string()));
        }
        self.song = Some(song);
        match recorded {
            Ok(()) => {},
            Err(e) => {
                return Err(BackendError::HistoryError(e));
            },
        }
        self.is_playlist = playlist_mode;
        if !playlist_mode {
            self.playlist = None;
        }
        if outcome == PlayOutcome::LoopFailed {
            self.state = SongState::ErrorPlayingoSong;
            return Err(BackendError::Mpv("the player did not set its repeat flag".to_string()));
        }
        Ok(playlist_mode)
    }

    /// Whether the player should repeat its track for ever: it should,
    /// unless a playlist is being played.
    pub fn loop_player(&self) -> (loop_track: bool)
        ensures
            loop_track == !self@.is_playlist_mode,
    {
        !self.is_playlist
    }

    /// Leaves playlist mode: the active playlist is dropped. Returns the
    /// mode that the listeners are to hear, which is `false`.
    pub fn drop_playlist(&mut self) -> (mode: bool)
        ensures
            !mode,
            final(self)@ == without_playlist(old(self)@),
    {
        self.playlist = None;
        self.is_playlist = false;
        false
    }

    /// Makes `song_db` the active playlist and asks for its track at
    /// `index`.
    ///
    /// The track at `index` is read from the page store, the page store is
    /// made the active playlist, and the session goes on as
    /// [`Backend::arrive`] says. Where the page store yields no track for
    /// `index`, the playlist is active all the same, at the index that was
    /// reached before, or at `index` if none was; nothing is asked of the
    /// player.
    pub fn play_playlist(&mut self, song_db: SongDatabase, index: usize) -> (r: Result<
        PlayRequest,
        BackendError,
    >)
        ensures
            match r {
                Ok(request) => {
                    &&& song_db@.contains_key(decimal_of(index as nat))
                    &&& song_decoding(song_db@[decimal_of(index as nat)]) matches Some(song)
                    &&& is_request_for(request, song, true)
                    &&& final(self)@ == requested(
                        SessionView {
                            active_playlist: Some(song_db@),
                            current_playlist_index: Some(index),
                            ..old(self)@
                        },
                        song,
                        true,
                    )
                },
                Err(BackendError::PlaylistError(e)) => {
                    &&& final(self)@ == (SessionView {
                        active_playlist: Some(song_db@),
                        current_playlist_index: match old(self)@.current_playlist_index {
                            Some(reached) => Some(reached),
                            None => Some(index),
                        },
                        ..old(self)@
                    })
                    &&& e is DbError || e is SongNotFound || e is SerdeError
                    &&& e is SongNotFound ==> !song_db@.contains_key(decimal_of(index as nat))
                    &&& e is SerdeError ==> song_db@.contains_key(decimal_of(index as nat))
                        && song_decoding(song_db@[decimal_of(index as nat)]) is None
                },
                Err(_) => false,
            },
    {
        let found = song_db.get_song_by_index(index);
        let reached = match &self.playlist {
            Some(active) => active.index,
            None => index,
        };
        self.playlist = Some(ActivePlaylist { pages: song_db, index: reached });
        match self.arrive(index, found) {
            Ok(Some(request)) => Ok(request),
            Ok(None) => {
                proof {
                    assert(false);
                }
                Err(BackendError::PlaybackError(String::new()))
            },
            Err(e) => Err(e),
        }
    }

    /// Moves through the active playlist and asks for the track reached.
    ///
    /// Going on leads one index further, and from the last track to the
    /// first; going back leads one index back, and from the first track
    /// nowhere: [`target_index`]. Without an active playlist, and in an
    /// empty one, nothing happens and `None` is returned. Else the track at
    /// the index reached is read from the page store, and the session goes
    /// on as [`Backend::arrive`] says: where the page store fails or has no
    /// track there, the session stays as it was.
    pub fn advance(&mut self, direction: Direction) -> (r: Result<Option<PlayRequest>, BackendError>)
        ensures
            advances(old(self)@, final(self)@, direction, r),
    {
        let (length, current) = match &self.playlist {
            Some(active) => match active.pages.length() {
                Ok(length) => (length, active.index),
                Err(e) => {
                    return Err(BackendError::PlaylistError(e));
                },
            },
            None => {
                return Ok(None);
            },
        };
        let target = match target_index(current, length, direction) {
            Some(target) => target,
            None => {
                return Ok(None);
            },
        };
        let found = match &self.playlist {
            Some(active) => active.pages.get_song_by_index(target),
            None => {
                return Ok(None);
            },
        };
        self.arrive(target, found)
    }

    /// Takes what the page store `found` at the index `target` of the
    /// active playlist.
    ///
    /// A track makes `target` the index reached and is asked for, as a
    /// playlist's track. An error is handed on as `PlaylistError`, and the
    /// session stays as it was. Without an active playlist nothing happens
    /// and `None` is returned.
    pub fn arrive(&mut self, target: usize, found: Result<Song, SongError>) -> (r: Result<
        Option<PlayRequest>,
        BackendError,
    >)
        ensures
            arrives(old(self)@, final(self)@, target, found, r),
    {
        match &mut self.playlist {
            Some(active) => match found {
                Ok(song) => {
                    active.index = target;
                    Ok(Some(self.play_music(song, true)))
                },
                Err(e) => Err(BackendError::PlaylistError(e)),
            },
            None => Ok(None),
        }
    }

    /// Goes on to the next track of the active playlist.
    pub fn next_song_playlist(&mut self) -> (r: Result<Option<PlayRequest>, BackendError>)
        ensures
            advances(old(self)@, final(self)@, Direction::Next, r),
    {
        self.advance(Direction::Next)
    }

    /// Goes back to the previous track of the active playlist.
    pub fn prev_song_playlist(&mut self) -> (r: Result<Option<PlayRequest>, BackendError>)
        ensures
            advances(old(self)@, final(self)@, Direction::Previous, r),
    {
        self.advance(Direction::Previous)
    }

    /// Notes that the player was seen to play. Returns whether that is
    /// news: it is when the session did not know a track to be playing.
    pub fn confirm_playing(&mut self) -> (news: bool)
        ensures
            news == (old(self)@.state != SongState::Playing),
            final(self)@ == (SessionView { state: SongState::Playing, ..old(self)@ }),
    {
        let news = self.state != SongState::Playing;
        self.state = SongState::Playing;
        news
    }

    /// Notes that the player has been silent for long enough: the session
    /// is idle and shows no details.
    pub fn playback_lapsed(&mut self)
        ensures
            final(self)@ == (SessionView {
                state: SongState::Idle,
                details: None,
                ..old(self)@
            }),
    {
        self.state = SongState::Idle;
        self.details = None;
    }

    /// Shows the details that the player reported for the current track,
    /// whose length is `duration` seconds. Without a current track there
    /// is nothing to show.
    pub fn show_details(&mut self, duration: u64, current_volume: i64, pause: bool)
        ensures
            final(self)@ == (SessionView {
                details: match old(self)@.current_track {
                    Some(song) => Some(first_shown(song, duration, current_volume, pause)),
                    None => old(self)@.details,
                },
                ..old(self)@
            }),
    {
        match &self.song {
            Some(song) => {
                self.details = Some(SongDetails::new(song.clone(), duration, current_volume, pause));
            },
            None => {},
        }
    }

    /// The details on show, to be brought up to date.
    pub fn details_mut(&mut self) -> (details: Option<&mut SongDetails>)
        ensures
            match details {
                Some(shown) => old(self)@.details == Some(shown@) && final(self)@ == (SessionView {
                    details: Some(final(shown)@),
                    ..old(self)@
                }),
                None => old(self)@.details is None && final(self)@ == old(self)@,
            },
    {
        self.details.as_mut()
    }
}

/// The index that a move through a playlist of `length` tracks leads to
/// from `current`; an empty playlist leads nowhere.
pub open spec fn target_of(current: usize, length: usize, direction: Direction) -> Option<usize> {
    if length == 0 {
        None
    } else {
        Some(
            match direction {
                Direction::Next => next_index(current, length),
                Direction::Previous => previous_index(current),
            },
        )
    }
}

/// The index that a move through a playlist of `length` tracks leads to
/// from `current`: one on, and from the last track to the first; or one
/// back, and from the first track nowhere. `None` in an empty playlist.
pub fn target_index(current: usize, length: usize, direction: Direction) -> (t: Option<usize>)
    ensures
        t == target_of(current, length, direction),
        length == 0 <==> t is None,
{
    if length == 0 {
        return None;
    }
    match direction {
        Direction::Next => {
            proof {
                lemma_add_mod_noop(current as int, 1, length as int);
                if length > 1 {
                    lemma_small_mod(1, length as nat);
                }
            }
            Some(((current % length) + 1) % length)
        },
        Direction::Previous => if current > 0 {
            Some(current - 1)
        } else {
            Some(0)
        },
    }
}

/// What [`Backend::arrive`] does: `r` and the session `after` it, from the
/// session `before` and what was `found` at `target`.
pub open spec fn arrives(
    before: SessionView,
    after: SessionView,
    target: usize,
    found: Result<Song, SongError>,
    r: Result<Option<PlayRequest>, BackendError>,
) -> bool {
    if before.active_playlist is None {
        (r matches Ok(None)) && after == before
    } else {
        match found {
            Ok(song) => {
                &&& r matches Ok(Some(request))
                &&& is_request_for(request, song@, true)
                &&& after == requested(
                    SessionView { current_playlist_index: Some(target), ..before },
                    song@,
                    true,
                )
            },
            Err(e) => r == Err::<Option<PlayRequest>, BackendError>(
                BackendError::PlaylistError(e),
            ) && after == before,
        }
    }
}

/// What [`Backend::play_recorded`] does: `r` and the session `after` it,
/// from the session `before`, the player's `outcome` and the history's
/// answer `recorded`.
pub open spec fn play_settled(
    before: SessionView,
    after: SessionView,
    song: SongView,
    playlist_mode: bool,
    outcome: PlayOutcome,
    recorded: Result<(), HistoryError>,
    r: Result<bool, BackendError>,
) -> bool {
    if outcome == PlayOutcome::PlayFailed {
        (r matches Err(BackendError::Mpv(_))) && after == failed(before)
    } else {
        match recorded {
            Err(e) => r == Err::<bool, BackendError>(BackendError::HistoryError(e)) && after == (
            SessionView { current_track: Some(song), pending: None, ..before }),
            Ok(_) => if outcome == PlayOutcome::LoopFailed {
                (r matches Err(BackendError::Mpv(_))) && after == failed(
                    started(before, song, playlist_mode),
                )
            } else {
                r == Ok::<bool, BackendError>(playlist_mode) && after == started(
                    before,
                    song,
                    playlist_mode,
                )
            },
        }
    }
}

/// `after` is one track further in the playlist of `before`: the playlist is
/// the same, and the index is the one after that of `before`.
pub open spec fn one_further(before: SessionView, after: SessionView) -> bool {
    &&& before.active_playlist matches Some(pages)
    &&& before.current_playlist_index matches Some(current)
    &&& scan_of(pages).len() > 0
    &&& after.active_playlist == Some(pages)
    &&& after.current_playlist_index == Some(
        next_index(current, scan_of(pages).len() as usize),
    )
}

/// A move on that asked for a track has led one track further. The request
/// is for the track at the index reached, with its address and without
/// repeat, and awaits its outcome as a playlist's track; once the player
/// has taken it, that track is the current one, playlist mode is on, and
/// the session is still at that index of that playlist.
pub proof fn lemma_advance_goes_on(before: SessionView, after: SessionView, request: PlayRequest)
    requires
        advances(
            before,
            after,
            Direction::Next,
            Ok::<Option<PlayRequest>, BackendError>(Some(request)),
        ),
        before.current_playlist_index is Some,
    ensures
        one_further(before, after),
        !request.loop_track,
        after.state == SongState::Loading,
        after.pending matches Some((track, playlist_mode)) && {
            &&& playlist_mode
            &&& request.url@ == media_url(track.id)
            &&& song_decoding(
                before.active_playlist.unwrap()[decimal_of(
                    after.current_playlist_index.unwrap() as nat,
                )],
            ) == Some(track)
            &&& started(after, track, true).current_track == Some(track)
            &&& started(after, track, true).is_playlist_mode
            &&& started(after, track, true).active_playlist == after.active_playlist
            &&& started(after, track, true).current_playlist_index
                == after.current_playlist_index
        },
{
}

/// Sessions that lead one track further each, as many times as the playlist
/// has tracks, end at the index that they started from, if that lay within
/// the playlist.
pub proof fn lemma_round_of_moves(sessions: Seq<SessionView>, length: usize, start: usize)
    requires
        sessions.len() == length + 1,
        start < length,
        sessions[0].active_playlist matches Some(pages) && scan_of(pages).len() == length,
        sessions[0].current_playlist_index == Some(start),
        forall|k: int| 0 <= k < length ==> one_further(#[trigger] sessions[k], sessions[k + 1]),
    ensures
        sessions[length as int].current_playlist_index == Some(start),
        sessions[length as int].active_playlist == sessions[0].active_playlist,
{
    lemma_moves_lead(sessions, length, start, length as nat);
    lemma_full_round(start, length);
}

/// After `steps` moves the sessions are at the index `steps` moves on.
proof fn lemma_moves_lead(sessions: Seq<SessionView>, length: usize, start: usize, steps: nat)
    requires
        sessions.len() == length + 1,
        start < length,
        sessions[0].active_playlist matches Some(pages) && scan_of(pages).len() == length,
        sessions[0].current_playlist_index == Some(start),
        forall|k: int| 0 <= k < length ==> one_further(#[trigger] sessions[k], sessions[k + 1]),
        steps <= length,
    ensures
        sessions[steps as int].current_playlist_index == Some(advanced(start, length, steps)),
        sessions[steps as int].active_playlist == sessions[0].active_playlist,
    decreases steps,
{
    if steps > 0 {
        lemma_moves_lead(sessions, length, start, (steps - 1) as nat);
        assert(one_further(sessions[steps - 1], sessions[steps - 1 + 1]));
    }
}

/// What [`Backend::advance`] does: `r` and the session `after` it, from the
/// session `before`.
pub open spec fn advances(
    before: SessionView,
    after: SessionView,
    direction: Direction,
    r: Result<Option<PlayRequest>, BackendError>,
) -> bool {
    match before.active_playlist {
        None => (r matches Ok(None)) && after == before,
        Some(pages) => {
            let length = scan_of(pages).len();
            let target = match direction {
                Direction::Next => next_index(before.current_playlist_index.unwrap(), length as usize),
                Direction::Previous => previous_index(before.current_playlist_index.unwrap()),
            };
            match r {
                Ok(None) => length == 0 && after == before,
                Ok(Some(request)) => {
                    &&& length > 0
                    &&& pages.contains_key(decimal_of(target as nat))
                    &&& song_decoding(pages[decimal_of(target as nat)]) matches Some(song)
                    &&& is_request_for(request, song, true)
                    &&& after == requested(
                        SessionView { current_playlist_index: Some(target), ..before },
                        song,
                        true,
                    )
                },
                Err(BackendError::PlaylistError(e)) => {
                    &&& after == before
                    &&& e is DbError || e is SongNotFound || e is SerdeError
                    &&& e is SongNotFound ==> length > 0 && !pages.contains_key(
                        decimal_of(target as nat),
                    )
                    &&& e is SerdeError ==> length > 0 && pages.contains_key(
                        decimal_of(target as nat),
                    ) && song_decoding(pages[decimal_of(target as nat)]) is None
                },
                Err(_) => false,
            }
        },
    }
}

} // verus!
