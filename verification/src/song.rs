//! Tracks: the playable unit every other module passes around.

use crate::ranking::{lemma_insert_point_at, lemma_rank_by, rank_by};
use vstd::prelude::*;
use vstd::std_specs::cmp::PartialEqSpecImpl;

verus! {

/// A playable track: a stable id plus title and artist metadata.
#[derive(Debug)]
pub struct Song {
    pub id: String,
    pub title: String,
    pub artist_name: Vec<String>,
}

/// What a [`Song`] is, as plain sequences of characters.
pub struct SongView {
    pub id: Seq<char>,
    pub title: Seq<char>,
    pub artist_name: Seq<Seq<char>>,
}

impl View for Song {
    type V = SongView;

    open spec fn view(&self) -> SongView {
        SongView {
            id: self.id@,
            title: self.title@,
            artist_name: self.artist_name.deep_view(),
        }
    }
}

/// The views of a run of tracks, in order.
pub open spec fn song_views(songs: Seq<Song>) -> Seq<SongView> {
    songs.map_values(|s: Song| s@)
}

/// Copies a list of names.
pub fn clone_names(names: &Vec<String>) -> (copy: Vec<String>)
    ensures
        copy.deep_view() == names.deep_view(),
{
    let mut copy: Vec<String> = Vec::new();
    let mut i: usize = 0;
    while i < names.len()
        invariant
            i <= names.len(),
            copy.len() == i,
            forall|j: int| 0 <= j < i ==> copy[j]@ == names[j]@,
        decreases names.len() - i,
    {
        copy.push(names[i].clone());
        i += 1;
    }
    assert(copy.deep_view() =~= names.deep_view());
    copy
}

impl Song {
    /// Builds a track from its id, title and artists.
    pub fn new(id: String, title: String, artist_name: Vec<String>) -> (song: Self)
        ensures
            song@ == (SongView { id: id@, title: title@, artist_name: artist_name.deep_view() }),
    {
        Self { id, title, artist_name }
    }
}

impl Clone for Song {
    fn clone(&self) -> (copy: Self)
        ensures
            copy@ == self@,
    {
        Song {
            id: self.id.clone(),
            title: self.title.clone(),
            artist_name: clone_names(&self.artist_name),
        }
    }
}

impl PartialEq for Song {
    /// Two tracks are the same track when their ids agree.
    fn eq(&self, other: &Self) -> (same: bool) {
        self.id == other.id
    }
}

impl PartialEqSpecImpl for Song {
    open spec fn obeys_eq_spec() -> bool {
        true
    }

    open spec fn eq_spec(&self, other: &Self) -> bool {
        self.id@ == other.id@
    }
}

/// The views of a run of tracks with their positions, in order.
pub open spec fn placed_views(placed: Seq<(usize, Song)>) -> Seq<(usize, SongView)> {
    placed.map_values(|p: (usize, Song)| (p.0, p.1@))
}

/// Ranks placed tracks by ascending position.
pub open spec fn by_position() -> spec_fn((usize, SongView)) -> int {
    |p: (usize, SongView)| p.0 as int
}

/// The tracks of a run of placed tracks, without their positions.
pub open spec fn tracks_of(placed: Seq<(usize, SongView)>) -> Seq<SongView> {
    placed.map_values(|p: (usize, SongView)| p.1)
}

/// Ranks placed tracks by ascending position; tracks of equal position keep
/// their order.
pub fn rank_by_position(placed: Vec<(usize, Song)>) -> (ranked: Vec<(usize, Song)>)
    ensures
        placed_views(ranked@) == rank_by(placed_views(placed@), by_position()),
        placed_views(ranked@).to_multiset() == placed_views(placed@).to_multiset(),
        forall|i: int, j: int| 0 <= i < j < ranked.len() ==> ranked[i].0 <= ranked[j].0,
{
    let ghost all = placed_views(placed@);
    proof {
        lemma_rank_by(all, by_position());
    }
    let mut rest = placed;
    let mut ranked: Vec<(usize, Song)> = Vec::new();
    proof {
        assert(all.skip(all.len() as int) =~= Seq::<(usize, SongView)>::empty());
        assert(all.take(all.len() as int) =~= all);
    }
    while rest.len() > 0
        invariant
            rest.len() <= all.len(),
            placed_views(rest@) == all.take(rest.len() as int),
            placed_views(ranked@) == rank_by(all.skip(rest.len() as int), by_position()),
        decreases rest.len(),
    {
        let ghost n = rest.len() as int;
        let ghost rest_before = rest@;
        let item = rest.pop().unwrap();
        let ghost item_view = (item.0, item.1@);
        let ghost before = placed_views(ranked@);
        let mut at: usize = 0;
        while at < ranked.len() && ranked[at].0 < item.0
            invariant
                at <= ranked.len(),
                before == placed_views(ranked@),
                forall|i: int| 0 <= i < at ==> by_position()(#[trigger] before[i]) < item.0,
            decreases ranked.len() - at,
        {
            at += 1;
        }
        proof {
            lemma_insert_point_at(before, item.0 as int, by_position(), at as int);
            assert(item_view == placed_views(rest_before)[n - 1]);
            assert(all.skip(n - 1).drop_first() =~= all.skip(n));
            assert(all.skip(n - 1)[0] == item_view);
            assert(placed_views(rest@) =~= all.take(n - 1));
        }
        ranked.insert(at, item);
        proof {
            assert(placed_views(ranked@) =~= before.insert(at as int, all[n - 1]));
        }
    }
    proof {
        assert(all.skip(0) =~= all);
        assert forall|i: int, j: int| 0 <= i < j < ranked.len() implies ranked[i].0
            <= ranked[j].0 by {
            assert(by_position()(placed_views(ranked@)[i]) <= by_position()(
                placed_views(ranked@)[j],
            ));
        }
    }
    ranked
}

} // verus!
