//! Playback-session core of a terminal music player: listening history,
//! playlists, paginated track lists and the now-playing state machine,
//! each with a machine-checked contract.

pub mod clock;
pub mod codec;
pub mod config;
pub mod history;
pub mod history_store;
pub mod keys;
pub mod player;
pub mod playlist;
pub mod playlist_store;
pub mod profile;
pub mod ranking;
pub mod screen;
pub mod session;
pub mod song;
pub mod songpage;
pub mod store;
pub mod text;
