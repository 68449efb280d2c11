//! The anime library as it is stored: rows read from the database, the
//! records handed to it, and the conversions between them and the resolved
//! anime.
use indexmap::IndexMap;
use vstd::prelude::*;
use vstd::std_specs::convert::FromSpecImpl;

use crate::model::{
    named_series_view, series_entries, series_into_entries, Anime as CoreAnime,
    Episode as CoreEpisode,
};
use crate::ordered_map::keys_distinct;

verus! {

/// A stored episode. Ids are UUIDs as 128-bit integers; times are
/// nanoseconds since the Unix epoch.
#[derive(Debug, Clone, PartialEq, Eq)]
pub struct Episode {
    pub id: u128,
    pub sn: u32,
    pub cover: String,
    pub cover_id: Option<u128>,
    pub episode: u32,
    pub create_at: i128,
    pub update_at: i128,
}

impl Episode {
    /// A field-for-field copy.
    pub fn copy(&self) -> (e: Episode)
        ensures
            e == *self,
    {
        Episode {
            id: self.id,
            sn: self.sn,
            cover: self.cover.clone(),
            cover_id: self.cover_id,
            episode: self.episode,
            create_at: self.create_at,
            update_at: self.update_at,
        }
    }
}

/// The series of a stored anime: series name to its stored episodes.
pub uninterp spec fn stored_series_entries(m: IndexMap<String, Vec<Episode>>) -> Seq<(Seq<char>, Seq<Episode>)>;

/// The view of a list of named stored series.
pub open spec fn stored_series_view(v: Seq<(String, Vec<Episode>)>) -> Seq<(Seq<char>, Seq<Episode>)> {
    v.map_values(|e: (String, Vec<Episode>)| (e.0@, e.1@))
}

/// Builds the series map from named series with distinct names
/// (`IndexMap::from_iter`): entries keep their order.
#[verifier::external_body]
pub fn stored_series_from_entries(entries: Vec<(String, Vec<Episode>)>) -> (m: IndexMap<String, Vec<Episode>>)
    requires
        keys_distinct(stored_series_view(entries@)),
    ensures
        stored_series_entries(m) == stored_series_view(entries@),
{
    entries.into_iter().collect()
}

/// The named series of the map, in order (`IndexMap::into_iter`); an
/// `IndexMap` never holds a name twice.
#[verifier::external_body]
pub fn stored_series_into_entries(m: IndexMap<String, Vec<Episode>>) -> (entries: Vec<(String, Vec<Episode>)>)
    ensures
        stored_series_view(entries@) == stored_series_entries(m),
        keys_distinct(stored_series_view(entries@)),
{
    m.into_iter().collect()
}

/// An empty series map (`IndexMap::new`).
#[verifier::external_body]
pub fn stored_series_map_new() -> (m: IndexMap<String, Vec<Episode>>)
    ensures
        stored_series_entries(m) == Seq::<(Seq<char>, Seq<Episode>)>::empty(),
{
    IndexMap::new()
}

/// The position of the series named `name` (`IndexMap::get_index_of`).
#[verifier::external_body]
pub fn stored_series_index_of(m: &IndexMap<String, Vec<Episode>>, name: &String) -> (r: Option<usize>)
    ensures
        r matches Some(i) ==> i < stored_series_entries(*m).len() && stored_series_entries(
            *m,
        )[i as int].0 == name@,
        r is None ==> !crate::ordered_map::has_key(stored_series_entries(*m), name@),
{
    m.get_index_of(name)
}

/// The episodes of the series at position `i`, to be added to (`IndexMut`
/// for `IndexMap`, which panics only past the last position): the series keeps
/// its name and position and holds the episodes as they are left.
#[verifier::external_body]
pub fn stored_series_group_mut(m: &mut IndexMap<String, Vec<Episode>>, i: usize) -> (g: &mut Vec<Episode>)
    requires
        i < stored_series_entries(*old(m)).len(),
    ensures
        (*g)@ == stored_series_entries(*old(m))[i as int].1,
        stored_series_entries(*final(m)) == stored_series_entries(*old(m)).update(
            i as int,
            (stored_series_entries(*old(m))[i as int].0, (*final(g))@),
        ),
{
    &mut m[i]
}

/// Holds `episodes` under `name` (`IndexMap::insert`).
#[verifier::external_body]
pub fn stored_series_insert(m: &mut IndexMap<String, Vec<Episode>>, name: String, episodes: Vec<Episode>)
    ensures
        stored_series_entries(*final(m)) == crate::ordered_map::insert_entry(
            stored_series_entries(*old(m)),
            name@,
            episodes@,
        ),
{
    m.insert(name, episodes);
}

/// A stored anime with its series.
#[derive(Debug)]
pub struct Anime {
    pub id: u128,
    pub sn: u32,
    pub cover: String,
    pub cover_id: Option<u128>,
    pub name: String,
    pub series: IndexMap<String, Vec<Episode>>,
    pub create_at: i128,
    pub update_at: i128,
}

/// A stored cover image.
#[derive(Debug, Clone, PartialEq, Eq)]
pub struct CoverImage {
    pub id: u128,
    pub url: String,
    pub bytes: Vec<u8>,
    pub mime_type: String,
}

/// The record of an episode to store.
#[derive(Debug, Clone, PartialEq, Eq)]
pub struct CreateEpisode {
    pub sn: u32,
    pub cover: String,
    pub episode: u32,
}

/// The series of an anime to store.
pub uninterp spec fn create_series_entries(m: IndexMap<String, Vec<CreateEpisode>>) -> Seq<(Seq<char>, Seq<CreateEpisode>)>;

/// The view of a list of named series to store.
pub open spec fn create_series_view(v: Seq<(String, Vec<CreateEpisode>)>) -> Seq<(Seq<char>, Seq<CreateEpisode>)> {
    v.map_values(|e: (String, Vec<CreateEpisode>)| (e.0@, e.1@))
}

/// Builds the series map from named series with distinct names
/// (`IndexMap::from_iter`): entries keep their order.
#[verifier::external_body]
pub fn create_series_from_entries(entries: Vec<(String, Vec<CreateEpisode>)>) -> (m: IndexMap<String, Vec<CreateEpisode>>)
    requires
        keys_distinct(create_series_view(entries@)),
    ensures
        create_series_entries(m) == create_series_view(entries@),
{
    entries.into_iter().collect()
}

/// The record of an anime to store: a resolved anime with every field public.
#[derive(Debug)]
pub struct CreateAnime {
    pub sn: u32,
    pub cover: String,
    pub name: String,
    pub series: IndexMap<String, Vec<CreateEpisode>>,
}

/// An anime row, without its series.
#[derive(Debug, Clone, PartialEq, Eq)]
pub struct AnimeRow {
    pub id: u128,
    pub sn: u32,
    pub cover: String,
    pub cover_id: Option<u128>,
    pub name: String,
    pub create_at: i128,
    pub update_at: i128,
}

/// An anime row together with the series that the query assembled.
#[derive(Debug)]
pub struct AnimeRowWithSeries {
    pub id: u128,
    pub sn: u32,
    pub cover: String,
    pub cover_id: Option<u128>,
    pub name: String,
    pub series: IndexMap<String, Vec<Episode>>,
    pub create_at: i128,
    pub update_at: i128,
}

/// An episode row.
#[derive(Debug, Clone, PartialEq, Eq)]
pub struct EpisodeRow {
    pub id: u128,
    pub sn: u32,
    pub cover: String,
    pub cover_id: Option<u128>,
    pub episode: u32,
    pub series_id: u128,
    pub create_at: i128,
    pub update_at: i128,
}

/// The record of a cover image to store.
#[derive(Debug, Clone, PartialEq, Eq)]
pub struct CreateCoverImage {
    pub url: String,
    pub bytes: Vec<u8>,
    pub mime_type: String,
}

/// The stored episode of an episode row.
pub open spec fn episode_of_row(value: EpisodeRow) -> Episode {
    Episode {
        id: value.id,
        sn: value.sn,
        cover: value.cover,
        cover_id: value.cover_id,
        episode: value.episode,
        create_at: value.create_at,
        update_at: value.update_at,
    }
}

impl From<EpisodeRow> for Episode {
    fn from(value: EpisodeRow) -> (r: Self) {
        Episode {
            id: value.id,
            sn: value.sn,
            cover: value.cover,
            cover_id: value.cover_id,
            episode: value.episode,
            create_at: value.create_at,
            update_at: value.update_at,
        }
    }
}

impl FromSpecImpl<EpisodeRow> for Episode {
    open spec fn obeys_from_spec() -> bool {
        true
    }

    open spec fn from_spec(value: EpisodeRow) -> Self {
        episode_of_row(value)
    }
}

/// The record to store for a resolved episode.
pub open spec fn create_episode_of(value: CoreEpisode) -> CreateEpisode {
    CreateEpisode { sn: value@.0, cover: value.spec_cover(), episode: value@.1 }
}

impl From<CoreEpisode> for CreateEpisode {
    fn from(value: CoreEpisode) -> (r: Self) {
        let (sn, episode, cover) = value.into_parts();
        CreateEpisode { sn, cover, episode }
    }
}

impl FromSpecImpl<CoreEpisode> for CreateEpisode {
    open spec fn obeys_from_spec() -> bool {
        true
    }

    open spec fn from_spec(value: CoreEpisode) -> Self {
        create_episode_of(value)
    }
}

/// The resolved-episode form of a stored episode: its sn, number and cover.
pub open spec fn core_episode_of(value: Episode) -> CoreEpisode {
    CoreEpisode::spec_of(value.sn, value.episode, value.cover)
}

impl From<Episode> for CoreEpisode {
    fn from(value: Episode) -> (r: Self) {
        let Episode { sn, episode, cover, .. } = value;
        CoreEpisode::from_parts(sn, episode, cover)
    }
}

impl FromSpecImpl<Episode> for CoreEpisode {
    open spec fn obeys_from_spec() -> bool {
        true
    }

    open spec fn from_spec(value: Episode) -> Self {
        core_episode_of(value)
    }
}

/// The stored anime of an anime row: no series yet.
pub fn anime_from_row(value: AnimeRow) -> (r: Anime)
    ensures
        r.id == value.id,
        r.sn == value.sn,
        r.cover == value.cover,
        r.cover_id == value.cover_id,
        r.name == value.name,
        stored_series_entries(r.series) == Seq::<(Seq<char>, Seq<Episode>)>::empty(),
        r.create_at == value.create_at,
        r.update_at == value.update_at,
{
    let empty: Vec<(String, Vec<Episode>)> = Vec::new();
    proof {
        assert(stored_series_view(empty@) =~= Seq::<(Seq<char>, Seq<Episode>)>::empty());
    }
    Anime {
        id: value.id,
        sn: value.sn,
        cover: value.cover,
        cover_id: value.cover_id,
        name: value.name,
        series: stored_series_from_entries(empty),
        create_at: value.create_at,
        update_at: value.update_at,
    }
}

impl From<AnimeRow> for Anime {
    /// Same as `anime_from_row`.
    fn from(value: AnimeRow) -> (r: Self)
        ensures
            r.id == value.id,
            r.sn == value.sn,
            r.cover == value.cover,
            r.cover_id == value.cover_id,
            r.name == value.name,
            stored_series_entries(r.series) == Seq::<(Seq<char>, Seq<Episode>)>::empty(),
            r.create_at == value.create_at,
            r.update_at == value.update_at,
    {
        anime_from_row(value)
    }
}

impl FromSpecImpl<AnimeRow> for Anime {
    /// The result holds a map that no spec value can name, so the contract is
    /// the one stated on `from` itself.
    open spec fn obeys_from_spec() -> bool {
        false
    }

    open spec fn from_spec(value: AnimeRow) -> Self {
        arbitrary()
    }
}

/// The stored anime of an anime row that carries its series.
pub fn anime_from_row_with_series(value: AnimeRowWithSeries) -> (r: Anime)
    ensures
        r.id == value.id,
        r.sn == value.sn,
        r.cover == value.cover,
        r.cover_id == value.cover_id,
        r.name == value.name,
        r.series == value.series,
        r.create_at == value.create_at,
        r.update_at == value.update_at,
{
    Anime {
        id: value.id,
        sn: value.sn,
        cover: value.cover,
        cover_id: value.cover_id,
        name: value.name,
        series: value.series,
        create_at: value.create_at,
        update_at: value.update_at,
    }
}

/// The record to store for a resolved anime: the same sn, cover, name and
/// series, each episode as its record.
pub fn create_anime_from_core(value: CoreAnime) -> (r: CreateAnime)
    ensures
        r.sn == value@.0,
        r.cover@ == value@.2,
        r.name@ == value@.3,
        create_series_entries(r.series) == value@.1.map_values(
            |e: (Seq<char>, Seq<CoreEpisode>)| (e.0, e.1.map_values(|x: CoreEpisode| create_episode_of(x))),
        ),
{
    let (sn, series, cover, name) = value.into_parts();
    let entries = series_into_entries(series);
    let ghost src = named_series_view(entries@);
    let mut out: Vec<(String, Vec<CreateEpisode>)> = Vec::new();
    let mut i: usize = 0;
    while i < entries.len()
        invariant
            0 <= i <= entries@.len(),
            src == named_series_view(entries@),
            keys_distinct(src),
            create_series_view(out@) == src.take(i as int).map_values(
                |e: (Seq<char>, Seq<CoreEpisode>)| (e.0, e.1.map_values(|x: CoreEpisode| create_episode_of(x))),
            ),
        decreases entries@.len() - i,
    {
        let name_i = entries[i].0.clone();
        let eps = &entries[i].1;
        let mut created: Vec<CreateEpisode> = Vec::new();
        let mut k: usize = 0;
        while k < eps.len()
            invariant
                0 <= k <= eps@.len(),
                created@ == eps@.take(k as int).map_values(|x: CoreEpisode| create_episode_of(x)),
            decreases eps@.len() - k,
        {
            let e = eps[k].copy();
            let (esn, enumber, ecover) = e.into_parts();
            created.push(CreateEpisode { sn: esn, cover: ecover, episode: enumber });
            k = k + 1;
            assert(created@ =~= eps@.take(k as int).map_values(|x: CoreEpisode| create_episode_of(x)));
        }
        assert(eps@.take(eps@.len() as int) =~= eps@);
        let ghost prev = out@;
        let ghost f = |e: (Seq<char>, Seq<CoreEpisode>)| (e.0, e.1.map_values(|x: CoreEpisode| create_episode_of(x)));
        assert(src[i as int] == (entries@[i as int].0@, entries@[i as int].1@));
        assert(f(src[i as int]) == (name_i@, created@));
        out.push((name_i, created));
        assert(create_series_view(out@) =~= create_series_view(prev).push((name_i@, created@)));
        assert(src.take(i + 1).map_values(f) =~= src.take(i as int).map_values(f).push(f(src[i as int])));
        i = i + 1;
        assert(create_series_view(out@) =~= src.take(i as int).map_values(
            |e: (Seq<char>, Seq<CoreEpisode>)| (e.0, e.1.map_values(|x: CoreEpisode| create_episode_of(x))),
        ));
    }
    assert(src.take(entries@.len() as int) =~= src);
    proof {
        let v = create_series_view(out@);
        assert forall|a: int, b: int|
            0 <= a < v.len() && 0 <= b < v.len() && a != b implies #[trigger] v[a].0
            != #[trigger] v[b].0 by {
            assert(v[a].0 == src[a].0);
            assert(v[b].0 == src[b].0);
        }
    }
    CreateAnime { sn, cover, name, series: create_series_from_entries(out) }
}

impl From<CoreAnime> for CreateAnime {
    /// Same as `create_anime_from_core`.
    fn from(value: CoreAnime) -> (r: Self)
        ensures
            r.sn == value@.0,
            r.cover@ == value@.2,
            r.name@ == value@.3,
            create_series_entries(r.series) == value@.1.map_values(
                |e: (Seq<char>, Seq<CoreEpisode>)| (e.0, e.1.map_values(|x: CoreEpisode| create_episode_of(x))),
            ),
    {
        create_anime_from_core(value)
    }
}

impl FromSpecImpl<CoreAnime> for CreateAnime {
    /// The result holds a map that no spec value can name, so the contract is
    /// the one stated on `from` itself.
    open spec fn obeys_from_spec() -> bool {
        false
    }

    open spec fn from_spec(value: CoreAnime) -> Self {
        arbitrary()
    }
}

} // verus!
