//! Assembling an anime from the series that AniGamer lists for one of its
//! episodes.
use indexmap::IndexMap;
use vstd::prelude::*;

use crate::model::{
    named_series_view, series_entries, series_map_contains, series_map_insert, series_map_with_capacity,
    Anime, Episode,
};
use crate::ordered_map::{has_key, insert_entry, keys_distinct};

verus! {

/// Why an anime could not be resolved.
#[derive(Debug)]
pub enum AnimeResolveError {
    /// The AniGamer API answered with an error.
    Api(String),
    /// The HTTP request failed.
    Http(String),
    /// The anime name or a series name could not be parsed.
    ResolveAnimeNameOrSeriesName(String),
    /// The API answered something that should not happen.
    Unexpected(String),
    /// Two series resolved to the same name.
    SeriesNameCollision(String),
}

/// The message of an anime resolution error.
pub open spec fn resolve_error_message(e: AnimeResolveError) -> Seq<char> {
    match e {
        AnimeResolveError::Api(s) => "动画疯接口请求错误："@ + s@,
        AnimeResolveError::Http(s) => "HTTP 请求失败: "@ + s@,
        AnimeResolveError::ResolveAnimeNameOrSeriesName(s) => "解析动画名或者系列名失败："@ + s@,
        AnimeResolveError::Unexpected(s) => "非预期情况，请提 issue: "@ + s@,
        AnimeResolveError::SeriesNameCollision(s) =>
            "剧集名称解析存在重复，请携带该动画 sn 提 issue 报告此问题："@ + s@,
    }
}

impl AnimeResolveError {
    /// The text shown for this error.
    pub fn message(&self) -> (m: String)
        ensures
            m@ == resolve_error_message(*self),
    {
        match self {
            AnimeResolveError::Api(s) => String::from_str("动画疯接口请求错误：").concat(s.as_str()),
            AnimeResolveError::Http(s) => String::from_str("HTTP 请求失败: ").concat(s.as_str()),
            AnimeResolveError::ResolveAnimeNameOrSeriesName(s) => String::from_str(
                "解析动画名或者系列名失败：",
            ).concat(s.as_str()),
            AnimeResolveError::Unexpected(s) => String::from_str("非预期情况，请提 issue: ").concat(
                s.as_str(),
            ),
            AnimeResolveError::SeriesNameCollision(s) => String::from_str(
                "剧集名称解析存在重复，请携带该动画 sn 提 issue 报告此问题：",
            ).concat(s.as_str()),
        }
    }
}

/// The name at index `j` already occurs before `j`.
pub open spec fn repeats_earlier(names: Seq<Seq<char>>, j: int) -> bool {
    exists|i: int| 0 <= i < j && #[trigger] names[i] == names[j]
}

/// The first index whose name already occurs earlier, if any.
pub open spec fn first_collision(names: Seq<Seq<char>>) -> Option<int>
    decreases names.len(),
{
    if names.len() == 0 {
        None
    } else {
        match first_collision(names.drop_last()) {
            Some(j) => Some(j),
            None => if repeats_earlier(names, names.len() - 1) {
                Some(names.len() - 1)
            } else {
                None
            },
        }
    }
}

/// The series names of a list of named series.
pub open spec fn series_names(v: Seq<(Seq<char>, Seq<Episode>)>) -> Seq<Seq<char>> {
    v.map_values(|e: (Seq<char>, Seq<Episode>)| e.0)
}

/// `first_collision` finds the first repeated name, and there is none exactly
/// when the names are pairwise distinct.
pub proof fn lemma_first_collision(names: Seq<Seq<char>>)
    ensures
        first_collision(names) is None <==> (forall|a: int, b: int|
            0 <= a < names.len() && 0 <= b < names.len() && a != b ==> #[trigger] names[a]
                != #[trigger] names[b]),
        first_collision(names) matches Some(j) ==> 0 <= j < names.len() && repeats_earlier(
            names,
            j,
        ) && forall|k: int| 0 <= k < j ==> !repeats_earlier(names, k),
    decreases names.len(),
{
    if names.len() > 0 {
        let p = names.drop_last();
        lemma_first_collision(p);
        assert forall|k: int| 0 <= k < p.len() implies repeats_earlier(p, k) == repeats_earlier(
            names,
            k,
        ) by {
            if repeats_earlier(names, k) {
                let i = choose|i: int| 0 <= i < k && #[trigger] names[i] == names[k];
                assert(p[i] == p[k]);
            }
            if repeats_earlier(p, k) {
                let i = choose|i: int| 0 <= i < k && #[trigger] p[i] == p[k];
                assert(names[i] == names[k]);
            }
        }
        if first_collision(p) is None {
            let last = names.len() - 1;
            if !repeats_earlier(names, last) {
                assert forall|a: int, b: int|
                    0 <= a < names.len() && 0 <= b < names.len() && a != b implies #[trigger] names[a]
                    != #[trigger] names[b] by {
                    if a == last {
                        assert(!(names[b] == names[last]));
                    } else if b == last {
                        assert(!(names[a] == names[last]));
                    } else {
                        assert(p[a] != p[b]);
                    }
                }
            } else {
                let i = choose|i: int| 0 <= i < last && #[trigger] names[i] == names[last];
                assert(names[i] == names[last]);
                assert forall|k: int| 0 <= k < last implies !repeats_earlier(names, k) by {
                    if repeats_earlier(names, k) {
                        let m = choose|m: int| 0 <= m < k && #[trigger] names[m] == names[k];
                        assert(p[m] == p[k]);
                    }
                }
            }
        } else {
            let j = first_collision(p)->0;
            let i = choose|i: int| 0 <= i < j && #[trigger] p[i] == p[j];
            assert(names[i] == names[j]);
        }
    }
}

/// The series map of named series: the series in the given order when their
/// names are pairwise distinct; otherwise a `SeriesNameCollision` error naming
/// the first name that occurs a second time.
pub fn build_series(series_vec: Vec<(String, Vec<Episode>)>) -> (r: Result<
    IndexMap<String, Vec<Episode>>,
    AnimeResolveError,
>)
    ensures
        ({
            let names = series_names(named_series_view(series_vec@));
            match first_collision(names) {
                None => r is Ok && series_entries(r->Ok_0) == named_series_view(series_vec@),
                Some(j) => r matches Err(AnimeResolveError::SeriesNameCollision(n)) && n@ == names[j],
            }
        }),
{
    let ghost all = named_series_view(series_vec@);
    let ghost names = series_names(all);
    proof {
        lemma_first_collision(names);
    }
    let n = series_vec.len();
    let mut series = series_map_with_capacity(n);
    let mut rest: Vec<(String, Vec<Episode>)> = Vec::new();
    let mut src = series_vec;
    let ghost orig = src@;
    while src.len() > 0
        invariant
            src@ == orig.take(src@.len() as int),
            rest@.len() + src@.len() == orig.len(),
            forall|k: int| 0 <= k < rest@.len() ==> #[trigger] rest@[k] == orig[orig.len() - 1 - k],
        decreases src@.len(),
    {
        let x = src.pop().unwrap();
        rest.push(x);
        assert(src@ =~= orig.take(src@.len() as int));
    }
    let mut j: usize = 0;
    assert(all.take(0) =~= Seq::<(Seq<char>, Seq<Episode>)>::empty());
    while rest.len() > 0
        invariant
            all == named_series_view(orig),
            orig == series_vec@,
            orig.len() == n,
            names == series_names(all),
            0 <= j <= orig.len(),
            rest@.len() == orig.len() - j,
            forall|k: int| 0 <= k < rest@.len() ==> #[trigger] rest@[k] == orig[orig.len() - 1 - k],
            series_entries(series) == all.take(j as int),
            forall|k: int| 0 <= k < j ==> !repeats_earlier(names, k),
            first_collision(names) is None <==> (forall|a: int, b: int|
                0 <= a < names.len() && 0 <= b < names.len() && a != b ==> #[trigger] names[a]
                    != #[trigger] names[b]),
            first_collision(names) matches Some(c) ==> 0 <= c < names.len() && repeats_earlier(
                names,
                c,
            ) && forall|k: int| 0 <= k < c ==> !repeats_earlier(names, k),
        decreases rest@.len(),
    {
        let (name, episodes) = rest.pop().unwrap();
        assert((name, episodes) == orig[j as int]);
        assert(all[j as int] == (name@, episodes@));
        if series_map_contains(&series, &name) {
            proof {
                let i = choose|i: int| 0 <= i < j && #[trigger] all.take(j as int)[i].0 == name@;
                assert(names[i] == all[i].0);
                assert(names[j as int] == name@);
                assert(repeats_earlier(names, j as int));
                assert(i != j);
                assert(names[i] == names[j as int]);
                assert(first_collision(names) is Some);
                let c = first_collision(names)->0;
                if c < j {
                    assert(!repeats_earlier(names, c));
                }
                if c > j {
                    assert(!repeats_earlier(names, j as int));
                }
                assert(c == j);
                assert(names[c] == name@);
            }
            return Err(AnimeResolveError::SeriesNameCollision(name));
        }
        proof {
            assert(!repeats_earlier(names, j as int)) by {
                if repeats_earlier(names, j as int) {
                    let i = choose|i: int| 0 <= i < j && #[trigger] names[i] == names[j as int];
                    assert(all.take(j as int)[i].0 == name@);
                }
            }
        }
        let ghost nv = name@;
        let ghost ev = episodes@;
        series_map_insert(&mut series, name, episodes);
        assert(all.take(j + 1) =~= all.take(j as int).push((nv, ev)));
        j = j + 1;
    }
    proof {
        if first_collision(names) is Some {
            let c = first_collision(names)->0;
            assert(!repeats_earlier(names, c));
        }
    }
    assert(all.take(all.len() as int) =~= all);
    Ok(series)
}

/// The sn of the first episode of a series, which the series' details are
/// looked up by; a series without episodes is unexpected.
pub fn first_episode_sn(episodes: &Vec<Episode>) -> (r: Result<u32, AnimeResolveError>)
    ensures
        episodes@.len() > 0 ==> r == Ok::<u32, AnimeResolveError>(episodes@[0]@.0),
        episodes@.len() == 0 ==> (r matches Err(AnimeResolveError::Unexpected(m)) && m@
            == "应该存在剧集的，不然下载什么"@),
{
    if episodes.len() == 0 {
        Err(AnimeResolveError::Unexpected(String::from_str("应该存在剧集的，不然下载什么")))
    } else {
        Ok(episodes[0].sn())
    }
}

/// The anime `sn` with cover `cover`, made of the named series `series_vec`
/// and named by `name`, the outcome of parsing the anime's title. Two series
/// that share a name fail as `build_series` does, before the name is looked
/// at; otherwise a failed title parse is the error.
pub fn assemble_anime(
    sn: u32,
    series_vec: Vec<(String, Vec<Episode>)>,
    cover: &str,
    name: Result<String, AnimeResolveError>,
) -> (r: Result<Anime, AnimeResolveError>)
    ensures
        ({
            let names = series_names(named_series_view(series_vec@));
            match first_collision(names) {
                Some(j) => r matches Err(AnimeResolveError::SeriesNameCollision(n)) && n@ == names[j],
                None => match name {
                    Ok(nm) => r is Ok && r->Ok_0@ == (sn, named_series_view(series_vec@), cover@, nm@),
                    Err(e) => r == Err::<Anime, AnimeResolveError>(e),
                },
            }
        }),
{
    match build_series(series_vec) {
        Ok(series) => match name {
            Ok(nm) => Ok(Anime::new(sn, series, cover, nm.as_str())),
            Err(e) => Err(e),
        },
        Err(e) => Err(e),
    }
}

} // verus!
