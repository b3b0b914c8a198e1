//! The listener's profile: a name, a picture drawn in text, and running
//! totals of tracks played and seconds listened, kept in a [`Store`] under
//! one key.

use crate::codec::{decode_profile, encode_profile, profile_decoding, profile_encoding};
use crate::song::{Song, SongView};
use crate::store::Store;
use vstd::prelude::*;
use vstd::utf8::encode_utf8;

verus! {

/// The listener's profile.
#[derive(Debug)]
pub struct UserProfile {
    pub name: String,
    pub last_played: Option<Song>,
    pub songs_played: usize,
    pub image_url: Option<String>,
    pub pfp: String,
    pub time_played: usize,
}

/// What a [`UserProfile`] is, as plain values.
pub struct ProfileView {
    pub name: Seq<char>,
    pub last_played: Option<SongView>,
    pub songs_played: usize,
    pub image_url: Option<Seq<char>>,
    pub pfp: Seq<char>,
    pub time_played: usize,
}

impl View for UserProfile {
    type V = ProfileView;

    open spec fn view(&self) -> ProfileView {
        ProfileView {
            name: self.name@,
            last_played: match self.last_played {
                Some(song) => Some(song@),
                None => None,
            },
            songs_played: self.songs_played,
            image_url: match self.image_url {
                Some(url) => Some(url@),
                None => None,
            },
            pfp: self.pfp@,
            time_played: self.time_played,
        }
    }
}

/// The profile of a listener called `name`, pictured as `pfp`, who has not
/// played anything yet.
pub open spec fn fresh_profile(name: Seq<char>, pfp: Seq<char>) -> ProfileView {
    ProfileView {
        name,
        last_played: None,
        songs_played: 0,
        image_url: None,
        pfp,
        time_played: 0,
    }
}

/// One more than `n`, as far as `usize` goes.
pub open spec fn one_more(n: usize) -> usize {
    if n < usize::MAX {
        (n + 1) as usize
    } else {
        n
    }
}

/// The profile after one more second of listening.
pub open spec fn with_second(profile: ProfileView) -> ProfileView {
    ProfileView { time_played: one_more(profile.time_played), ..profile }
}

/// The profile after one more track played.
pub open spec fn with_play(profile: ProfileView) -> ProfileView {
    ProfileView { songs_played: one_more(profile.songs_played), ..profile }
}

/// The profile with `song` as the track played last.
pub open spec fn with_last_played(profile: ProfileView, song: SongView) -> ProfileView {
    ProfileView { last_played: Some(song), ..profile }
}

/// The profile pictured as `pfp`, the rendering of the image at
/// `image_url`.
pub open spec fn with_picture(
    profile: ProfileView,
    image_url: Seq<char>,
    pfp: Seq<char>,
) -> ProfileView {
    ProfileView { image_url: Some(image_url), pfp, ..profile }
}

/// Whether a profile's picture has to be drawn anew for the image at
/// `image_url`: it has, unless it was drawn from that very image.
pub open spec fn picture_is_stale(profile: ProfileView, image_url: Seq<char>) -> bool {
    profile.image_url != Some(image_url)
}

impl UserProfile {
    /// The profile of a listener called `name`, pictured as `pfp`, who has
    /// not played anything yet.
    pub fn new(name: String, pfp: String) -> (profile: Self)
        ensures
            profile@ == fresh_profile(name@, pfp@),
    {
        UserProfile {
            name,
            last_played: None,
            songs_played: 0,
            image_url: None,
            pfp,
            time_played: 0,
        }
    }

}

/// What can go wrong with the profile.
#[derive(Debug)]
pub enum UserProfileError {
    /// The store failed.
    DbError(sled::Error),
    /// The profile could not be encoded, or stored bytes spell no profile.
    SerializationError(bincode::Error),
    /// The image to draw the picture from is not a file.
    ImageFileUrlNotFound,
    /// The image could not be drawn in text.
    RenderFailed,
    /// The store holds no profile.
    ProfileMissing,
}

/// The key under which the profile is filed.
pub open spec fn profile_key() -> Seq<u8> {
    encode_utf8("user"@)
}

/// `store` holds `profile`, in bytes that are its encoding and read back as
/// it.
pub open spec fn holds_profile(store: Map<Seq<u8>, Seq<u8>>, profile: ProfileView) -> bool {
    &&& store.contains_key(profile_key())
    &&& profile_encoding(profile) == Some(store[profile_key()])
    &&& profile_decoding(store[profile_key()]) == Some(profile)
}

/// `after` is `before` with the profile on record replaced by `profile`.
pub open spec fn updates_profile(
    before: Map<Seq<u8>, Seq<u8>>,
    after: Map<Seq<u8>, Seq<u8>>,
    profile: ProfileView,
) -> bool {
    &&& holds_profile(after, profile)
    &&& after == before.insert(profile_key(), after[profile_key()])
}

/// One more second of listening.
pub open spec fn counts_second() -> spec_fn(ProfileView) -> ProfileView {
    |profile: ProfileView| with_second(profile)
}

/// One more track played.
pub open spec fn counts_play() -> spec_fn(ProfileView) -> ProfileView {
    |profile: ProfileView| with_play(profile)
}

/// `song` as the track played last.
pub open spec fn notes_last(song: SongView) -> spec_fn(ProfileView) -> ProfileView {
    |profile: ProfileView| with_last_played(profile, song)
}

/// `pfp` as the picture, drawn from the image at `image_url`.
pub open spec fn pictures(image_url: Seq<char>, pfp: Seq<char>) -> spec_fn(ProfileView) -> ProfileView {
    |profile: ProfileView| with_picture(profile, image_url, pfp)
}

/// What an update of the profile on record by `change` that ended in `r`
/// has made of the store.
/// - On success the profile on record spelt a profile, and `change` of it
///   has taken its place.
/// - `ProfileMissing`: the store held no profile, and is as it was.
/// - `SerializationError`: the bytes on record spelt no profile, or the
///   changed profile cannot be encoded; the store is as it was.
/// - `DbError`: the store failed; it is as it was, or as on success.
/// - No other error.
pub open spec fn update_outcome(
    before: Map<Seq<u8>, Seq<u8>>,
    after: Map<Seq<u8>, Seq<u8>>,
    change: spec_fn(ProfileView) -> ProfileView,
    r: Result<(), UserProfileError>,
) -> bool {
    let updated = match profile_of(before) {
        Some(profile) => updates_profile(before, after, change(profile)),
        None => false,
    };
    match r {
        Ok(_) => updated,
        Err(UserProfileError::ProfileMissing) => after == before && !before.contains_key(
            profile_key(),
        ),
        Err(UserProfileError::SerializationError(_)) => after == before && before.contains_key(
            profile_key(),
        ) && (match profile_of(before) {
            Some(profile) => profile_encoding(change(profile)) is None,
            None => true,
        }),
        Err(UserProfileError::DbError(_)) => after == before || updated,
        Err(_) => false,
    }
}

/// The profile on record in `store`, if its bytes spell one.
pub open spec fn profile_of(store: Map<Seq<u8>, Seq<u8>>) -> Option<ProfileView> {
    if store.contains_key(profile_key()) {
        profile_decoding(store[profile_key()])
    } else {
        None
    }
}

/// The store that keeps the listener's profile.
pub struct UserProfileDb {
    db: Store,
}

impl View for UserProfileDb {
    type V = Map<Seq<u8>, Seq<u8>>;

    closed spec fn view(&self) -> Map<Seq<u8>, Seq<u8>> {
        self.db@
    }
}

impl UserProfileDb {
    /// Opens the profile in the user's data directory. A store that holds
    /// no profile yet is given `fresh`.
    pub fn new(fresh: UserProfile) -> (r: Result<Self, UserProfileError>)
        ensures
            r matches Ok(profiles) ==> profiles@.contains_key(profile_key()),
            r matches Err(e) ==> e is DbError || e is SerializationError,
    {
        match Store::open("/tmp", "Feather", "user_profile") {
            Ok(db) => UserProfileDb::with_store(db, fresh),
            Err(e) => Err(UserProfileError::DbError(e)),
        }
    }

    /// Takes `db` as the profile store. If it holds no profile yet it is
    /// given `fresh`; else it is left as it is.
    pub fn with_store(db: Store, fresh: UserProfile) -> (r: Result<Self, UserProfileError>)
        ensures
            r matches Ok(profiles) ==> if db@.contains_key(profile_key()) {
                profiles@ == db@
            } else {
                updates_profile(db@, profiles@, fresh@)
            },
            r matches Err(UserProfileError::SerializationError(_)) ==> !db@.contains_key(
                profile_key(),
            ) && profile_encoding(fresh@) is None,
            r matches Err(e) ==> e is DbError || e is SerializationError,
    {
        let mut profiles = UserProfileDb { db };
        match profiles.db.get("user".as_bytes()) {
            Ok(Some(_)) => Ok(profiles),
            Ok(None) => match profiles.save(&fresh) {
                Ok(()) => Ok(profiles),
                Err(e) => Err(e),
            },
            Err(e) => Err(UserProfileError::DbError(e)),
        }
    }

    /// Reads the profile on record.
    fn load(&self) -> (r: Result<UserProfile, UserProfileError>)
        ensures
            r matches Ok(profile) ==> profile_of(self@) == Some(profile@),
            r matches Err(UserProfileError::ProfileMissing) ==> !self@.contains_key(profile_key()),
            r matches Err(UserProfileError::SerializationError(_)) ==> self@.contains_key(
                profile_key(),
            ) && profile_of(self@) is None,
            r matches Err(e) ==> e is DbError || e is ProfileMissing || e is SerializationError,
    {
        match self.db.get("user".as_bytes()) {
            Ok(Some(bytes)) => match decode_profile(bytes.as_slice()) {
                Ok(profile) => Ok(profile),
                Err(e) => Err(UserProfileError::SerializationError(e)),
            },
            Ok(None) => Err(UserProfileError::ProfileMissing),
            Err(e) => Err(UserProfileError::DbError(e)),
        }
    }

    /// Writes `profile` in place of the profile on record.
    fn save(&mut self, profile: &UserProfile) -> (r: Result<(), UserProfileError>)
        ensures
            r is Ok ==> updates_profile(old(self)@, final(self)@, profile@),
            r matches Err(UserProfileError::SerializationError(_)) ==> final(self)@ == old(self)@
                && profile_encoding(profile@) is None,
            r matches Err(UserProfileError::DbError(_)) ==> final(self)@ == old(self)@
                || updates_profile(old(self)@, final(self)@, profile@),
            r matches Err(e) ==> e is DbError || e is SerializationError,
    {
        let bytes = match encode_profile(profile) {
            Ok(bytes) => bytes,
            Err(e) => {
                return Err(UserProfileError::SerializationError(e));
            },
        };
        match self.db.insert("user".as_bytes(), bytes) {
            Ok(()) => Ok(()),
            Err(e) => Err(UserProfileError::DbError(e)),
        }
    }

    /// Counts one more second of listening.
    pub fn add_time(&mut self) -> (r: Result<(), UserProfileError>)
        ensures
            update_outcome(old(self)@, final(self)@, counts_second(), r),
    {
        let mut profile = match self.load() {
            Ok(profile) => profile,
            Err(e) => {
                return Err(e);
            },
        };
        if profile.time_played < usize::MAX {
            profile.time_played += 1;
        }
        self.save(&profile)
    }

    /// Counts one more track played.
    pub fn add_song(&mut self) -> (r: Result<(), UserProfileError>)
        ensures
            update_outcome(old(self)@, final(self)@, counts_play(), r),
    {
        let mut profile = match self.load() {
            Ok(profile) => profile,
            Err(e) => {
                return Err(e);
            },
        };
        if profile.songs_played < usize::MAX {
            profile.songs_played += 1;
        }
        self.save(&profile)
    }

    /// Notes `song` as the track played last.
    pub fn set_last_played(&mut self, song: Song) -> (r: Result<(), UserProfileError>)
        ensures
            update_outcome(old(self)@, final(self)@, notes_last(song@), r),
    {
        let mut profile = match self.load() {
            Ok(profile) => profile,
            Err(e) => {
                return Err(e);
            },
        };
        profile.last_played = Some(song);
        self.save(&profile)
    }

    /// Whether the picture has to be drawn anew for the image that the
    /// configuration names. Without an image there is nothing to draw.
    pub fn check_pfp_change(&self, image_url: &Option<String>) -> (r: Result<
        bool,
        UserProfileError,
    >)
        ensures
            r matches Ok(stale) ==> {
                &&& profile_of(self@) matches Some(profile)
                &&& stale == match image_url {
                    Some(url) => picture_is_stale(profile, url@),
                    None => false,
                }
            },
            r matches Err(UserProfileError::ProfileMissing) ==> !self@.contains_key(profile_key()),
            r matches Err(e) ==> e is DbError || e is ProfileMissing || e is SerializationError,
    {
        let profile = match self.load() {
            Ok(profile) => profile,
            Err(e) => {
                return Err(e);
            },
        };
        match image_url {
            Some(url) => match &profile.image_url {
                Some(drawn_from) => Ok(!(*drawn_from == *url)),
                None => Ok(true),
            },
            None => Ok(false),
        }
    }

    /// Replaces the picture by `pfp`, the rendering of the image at
    /// `image_url`.
    pub fn set_pfp(&mut self, image_url: String, pfp: String) -> (r: Result<(), UserProfileError>)
        ensures
            update_outcome(old(self)@, final(self)@, pictures(image_url@, pfp@), r),
    {
        let mut profile = match self.load() {
            Ok(profile) => profile,
            Err(e) => {
                return Err(e);
            },
        };
        profile.image_url = Some(image_url);
        profile.pfp = pfp;
        self.save(&profile)
    }

    /// The profile on record.
    pub fn give_info(&self) -> (r: Result<UserProfile, UserProfileError>)
        ensures
            r matches Ok(profile) ==> profile_of(self@) == Some(profile@),
            r matches Err(UserProfileError::ProfileMissing) ==> !self@.contains_key(profile_key()),
            r matches Err(UserProfileError::SerializationError(_)) ==> self@.contains_key(
                profile_key(),
            ) && profile_of(self@) is None,
            r matches Err(e) ==> e is DbError || e is ProfileMissing || e is SerializationError,
    {
        self.load()
    }
}

} // verus!
