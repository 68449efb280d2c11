//! An anime as resolved from AniGamer: its series, each an ordered list of
//! episodes.
use indexmap::IndexMap;
use vstd::prelude::*;

verus! {

/// One episode of a series.
#[derive(Debug, Clone, PartialEq, Eq)]
pub struct Episode {
    /// sn of this episode
    sn: u32,
    /// number of this episode within its series: 1, 2, 3, ...
    episode: u32,
    /// cover image of this episode
    cover: String,
}

impl View for Episode {
    /// `(sn, episode number, cover)`
    type V = (u32, u32, Seq<char>);

    closed spec fn view(&self) -> (u32, u32, Seq<char>) {
        (self.sn, self.episode, self.cover@)
    }
}

impl Episode {
    /// The cover field (for contracts).
    pub closed spec fn spec_cover(&self) -> String {
        self.cover
    }

    /// The episode of the given fields (for contracts).
    pub closed spec fn spec_of(sn: u32, episode: u32, cover: String) -> Episode {
        Episode { sn, episode, cover }
    }

    /// The episode of the given fields.
    pub fn from_parts(sn: u32, episode: u32, cover: String) -> (e: Episode)
        ensures
            e == Episode::spec_of(sn, episode, cover),
            e@ == (sn, episode, cover@),
    {
        Episode { sn, episode, cover }
    }

    /// The episode `sn`, numbered `episode` in its series.
    pub fn new(sn: u32, episode: u32, cover: &str) -> (e: Episode)
        ensures
            e@ == (sn, episode, cover@),
    {
        Episode { sn, episode, cover: String::from_str(cover) }
    }

    /// The cover image.
    pub fn cover(&self) -> (c: &str)
        ensures
            c@ == self@.2,
    {
        self.cover.as_str()
    }

    /// The number of this episode within its series.
    pub fn episode(&self) -> (n: u32)
        ensures
            n == self@.1,
    {
        self.episode
    }

    /// The sn of this episode.
    pub fn sn(&self) -> (n: u32)
        ensures
            n == self@.0,
    {
        self.sn
    }

    /// The fields, by value: `(sn, episode, cover)`.
    pub fn into_parts(self) -> (p: (u32, u32, String))
        ensures
            (p.0, p.1, p.2@) == self@,
            p.2 == self.spec_cover(),
    {
        let Episode { sn, episode, cover } = self;
        (sn, episode, cover)
    }

    /// A field-for-field copy.
    pub fn copy(&self) -> (e: Episode)
        ensures
            e == *self,
    {
        Episode { sn: self.sn, episode: self.episode, cover: self.cover.clone() }
    }
}

/// The series of an anime: series name to its episodes, in the order the
/// series were found.
pub uninterp spec fn series_entries(m: IndexMap<String, Vec<Episode>>) -> Seq<(Seq<char>, Seq<Episode>)>;

/// The view of a list of named series.
pub open spec fn named_series_view(v: Seq<(String, Vec<Episode>)>) -> Seq<(Seq<char>, Seq<Episode>)> {
    v.map_values(|e: (String, Vec<Episode>)| (e.0@, e.1@))
}

/// An empty series map with room for `n` series (`IndexMap::with_capacity`).
#[verifier::external_body]
pub fn series_map_with_capacity(n: usize) -> (m: IndexMap<String, Vec<Episode>>)
    ensures
        series_entries(m) == Seq::<(Seq<char>, Seq<Episode>)>::empty(),
{
    IndexMap::with_capacity(n)
}

/// Whether the map holds a series named `name` (`IndexMap::contains_key`).
#[verifier::external_body]
pub fn series_map_contains(m: &IndexMap<String, Vec<Episode>>, name: &String) -> (b: bool)
    ensures
        b == crate::ordered_map::has_key(series_entries(*m), name@),
{
    m.contains_key(name)
}

/// Holds `episodes` under `name` (`IndexMap::insert`): an existing series
/// keeps its position and takes the new episodes, otherwise the series is
/// appended.
#[verifier::external_body]
pub fn series_map_insert(m: &mut IndexMap<String, Vec<Episode>>, name: String, episodes: Vec<Episode>)
    ensures
        series_entries(*final(m)) == crate::ordered_map::insert_entry(
            series_entries(*old(m)),
            name@,
            episodes@,
        ),
{
    m.insert(name, episodes);
}

/// The named series of the map, in order (`IndexMap::into_iter`).
#[verifier::external_body]
pub fn series_into_entries(m: IndexMap<String, Vec<Episode>>) -> (entries: Vec<(String, Vec<Episode>)>)
    ensures
        named_series_view(entries@) == series_entries(m),
        crate::ordered_map::keys_distinct(named_series_view(entries@)),
{
    m.into_iter().collect()
}

/// An anime: its sn, its series, its cover and its name.
#[derive(Debug, PartialEq, Eq)]
pub struct Anime {
    /// anime's internal id
    sn: u32,
    series: IndexMap<String, Vec<Episode>>,
    /// cover image of this anime
    cover: String,
    /// anime's name including season
    name: String,
}

impl View for Anime {
    /// `(sn, series, cover, name)`
    type V = (u32, Seq<(Seq<char>, Seq<Episode>)>, Seq<char>, Seq<char>);

    closed spec fn view(&self) -> (u32, Seq<(Seq<char>, Seq<Episode>)>, Seq<char>, Seq<char>) {
        (self.sn, series_entries(self.series), self.cover@, self.name@)
    }
}

impl Anime {
    /// The anime of the given parts.
    pub fn new(sn: u32, series: IndexMap<String, Vec<Episode>>, cover: &str, name: &str) -> (a: Anime)
        ensures
            a@ == (sn, series_entries(series), cover@, name@),
    {
        Anime { sn, series, cover: String::from_str(cover), name: String::from_str(name) }
    }

    /// The anime's sn.
    pub fn sn(&self) -> (n: u32)
        ensures
            n == self@.0,
    {
        self.sn
    }

    /// The series of the anime.
    pub fn series(&self) -> (s: &IndexMap<String, Vec<Episode>>)
        ensures
            series_entries(*s) == self@.1,
    {
        &self.series
    }

    /// The anime's cover image.
    pub fn cover(&self) -> (c: &str)
        ensures
            c@ == self@.2,
    {
        self.cover.as_str()
    }

    /// The anime's name.
    pub fn name(&self) -> (c: &str)
        ensures
            c@ == self@.3,
    {
        self.name.as_str()
    }

    /// The parts, by value: `(sn, series, cover, name)`.
    pub fn into_parts(self) -> (p: (u32, IndexMap<String, Vec<Episode>>, String, String))
        ensures
            (p.0, series_entries(p.1), p.2@, p.3@) == self@,
    {
        let Anime { sn, series, cover, name } = self;
        (sn, series, cover, name)
    }
}

} // verus!
