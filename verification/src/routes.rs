//! The decisions of the HTTP handlers: which listing a query asks for, which
//! requested episodes exist, when a download is scheduled, and where a cover
//! comes from.
use vstd::prelude::*;

use crate::api::ApiError;
use crate::download::{DownloadState, DownloadStatus};
use crate::model::Episode as CoreEpisode;
use crate::stored::{core_episode_of, Episode};
use crate::text::{starts_with, str_chars};

verus! {

/// The body of an import request: the sn of any episode of the anime.
#[derive(Debug, Clone, Copy, PartialEq, Eq)]
pub struct ImportAnimeRequest {
    sn: u32,
}

impl ImportAnimeRequest {
    /// The sn field (for contracts).
    pub closed spec fn spec_sn(&self) -> u32 {
        self.sn
    }

    /// A request to import the anime of episode `sn`.
    pub fn new(sn: u32) -> (r: ImportAnimeRequest)
        ensures
            r.spec_sn() == sn,
    {
        ImportAnimeRequest { sn }
    }

    /// The episode sn.
    pub fn sn(&self) -> (n: u32)
        ensures
            n == self.spec_sn(),
    {
        self.sn
    }
}

/// Which anime a listing shows.
#[derive(Debug, Clone, Copy, PartialEq, Eq)]
pub enum AnimeListing {
    /// Every anime with all its episodes.
    All,
    /// The anime with episodes queued in this download state, with only those
    /// episodes.
    ByDownloadStatus(bool),
}

/// The query of the anime listing.
#[derive(Debug, Clone, Copy, PartialEq, Eq)]
pub struct SelectAnimesParam {
    downloaded: Option<bool>,
}

impl SelectAnimesParam {
    /// The `downloaded` field (for contracts).
    pub closed spec fn spec_downloaded(&self) -> Option<bool> {
        self.downloaded
    }

    /// A query with the given filter.
    pub fn new(downloaded: Option<bool>) -> (p: SelectAnimesParam)
        ensures
            p.spec_downloaded() == downloaded,
    {
        SelectAnimesParam { downloaded }
    }

    /// The listing the query asks for: filtered by download state when the
    /// query names one, all anime otherwise.
    pub fn listing(&self) -> (l: AnimeListing)
        ensures
            l == (match self.spec_downloaded() {
                Some(d) => AnimeListing::ByDownloadStatus(d),
                None => AnimeListing::All,
            }),
    {
        match self.downloaded {
            Some(d) => AnimeListing::ByDownloadStatus(d),
            None => AnimeListing::All,
        }
    }
}

/// The first position whose lookup found nothing, if any.
pub open spec fn first_missing(found: Seq<Option<Episode>>) -> Option<int>
    decreases found.len(),
{
    if found.len() == 0 {
        None
    } else {
        match first_missing(found.drop_last()) {
            Some(i) => Some(i),
            None => if found.last() is None {
                Some(found.len() - 1)
            } else {
                None
            },
        }
    }
}

proof fn lemma_first_missing(found: Seq<Option<Episode>>)
    ensures
        first_missing(found) is None <==> forall|k: int| 0 <= k < found.len() ==> #[trigger] found[k] is Some,
        first_missing(found) matches Some(i) ==> 0 <= i < found.len() && found[i] is None
            && forall|k: int| 0 <= k < i ==> #[trigger] found[k] is Some,
    decreases found.len(),
{
    if found.len() > 0 {
        let p = found.drop_last();
        lemma_first_missing(p);
        assert(forall|k: int| 0 <= k < p.len() ==> p[k] == found[k]);
    }
}

/// The episodes that a download request names, looked up in order
/// (`found[i]` is the lookup of `sn_list[i]`): all of them when every lookup
/// found one, otherwise `EpisodeNotFound` with the first sn not found.
pub fn requested_episodes(sn_list: &Vec<u32>, found: Vec<Option<Episode>>) -> (r: Result<
    Vec<CoreEpisode>,
    ApiError,
>)
    requires
        found@.len() == sn_list@.len(),
    ensures
        first_missing(found@) matches Some(i) ==> (r matches Err(ApiError::EpisodeNotFound(sn))
            && sn == sn_list@[i]),
        first_missing(found@) is None ==> (r matches Ok(eps) && eps@.len() == found@.len()
            && forall|k: int| 0 <= k < eps@.len() ==> #[trigger] eps@[k] == core_episode_of(found@[k]->0)),
{
    proof {
        lemma_first_missing(found@);
    }
    let mut out: Vec<CoreEpisode> = Vec::new();
    let mut i: usize = 0;
    while i < found.len()
        invariant
            found@.len() == sn_list@.len(),
            0 <= i <= found@.len(),
            forall|k: int| 0 <= k < i ==> #[trigger] found@[k] is Some,
            out@.len() == i,
            forall|k: int| 0 <= k < i ==> #[trigger] out@[k] == core_episode_of(found@[k]->0),
            first_missing(found@) is None <==> forall|k: int| 0 <= k < found@.len() ==> #[trigger] found@[k] is Some,
            first_missing(found@) matches Some(m) ==> 0 <= m < found@.len() && found@[m] is None
                && forall|k: int| 0 <= k < m ==> #[trigger] found@[k] is Some,
        decreases found@.len() - i,
    {
        match &found[i] {
            Some(e) => {
                out.push(CoreEpisode::from(e.copy()));
            },
            None => {
                proof {
                    if first_missing(found@) is Some {
                        let m = first_missing(found@)->0;
                        assert(m >= i);
                        if m > i {
                            assert(found@[i as int] is Some);
                        }
                    }
                }
                return Err(ApiError::EpisodeNotFound(sn_list[i]));
            },
        }
        i = i + 1;
    }
    Ok(out)
}

/// Whether a requested episode is handed to the download book: it was newly
/// queued, or its last download failed and is retried.
pub fn should_schedule(newly_queued: bool, failed_before: bool) -> (s: bool)
    ensures
        s == (newly_queued || failed_before),
{
    newly_queued || failed_before
}

/// The episodes that the lookups found, in order.
pub fn found_episodes(found: Vec<Option<Episode>>) -> (r: Vec<Episode>)
    ensures
        r@ == found@.filter(|o: Option<Episode>| o is Some).map_values(|o: Option<Episode>| o->0),
{
    let ghost all = found@;
    let mut out: Vec<Episode> = Vec::new();
    let mut i: usize = 0;
    while i < found.len()
        invariant
            all == found@,
            0 <= i <= found@.len(),
            out@ == all.take(i as int).filter(|o: Option<Episode>| o is Some).map_values(
                |o: Option<Episode>| o->0,
            ),
        decreases found@.len() - i,
    {
        let ghost before = all.take(i as int);
        assert(all.take(i + 1).drop_last() =~= before);
        reveal(Seq::filter);
        match &found[i] {
            Some(e) => {
                out.push(e.copy());
                assert(all.take(i + 1).filter(|o: Option<Episode>| o is Some) =~= before.filter(
                    |o: Option<Episode>| o is Some,
                ).push(all[i as int]));
            },
            None => {
                assert(all.take(i + 1).filter(|o: Option<Episode>| o is Some) =~= before.filter(
                    |o: Option<Episode>| o is Some,
                ));
            },
        }
        i = i + 1;
        assert(out@ =~= all.take(i as int).filter(|o: Option<Episode>| o is Some).map_values(
            |o: Option<Episode>| o->0,
        ));
    }
    assert(all.take(all.len() as int) =~= all);
    out
}

/// What the download event stream sends: a stored episode and the state of
/// its download.
#[derive(Debug, Clone)]
pub struct DownloadEvent {
    pub episode: Episode,
    pub state: DownloadState,
}

impl DownloadEvent {
    /// The event for the download status `ds`, given the lookup of its
    /// episode: the episode with the status's state, or `None` when the
    /// lookup found no episode.
    pub fn from_download_status(ds: DownloadStatus, episode: Option<Episode>) -> (r: Option<
        DownloadEvent,
    >)
        ensures
            episode is None ==> r is None,
            episode matches Some(e) ==> r == Some(DownloadEvent { episode: e, state: ds.state }),
    {
        match episode {
            Some(e) => Some(DownloadEvent { episode: e, state: ds.state }),
            None => None,
        }
    }
}

/// Where the cover of an episode comes from.
#[derive(Debug, Clone, Copy, PartialEq, Eq)]
pub enum CoverSource {
    /// The cover image already stored under this id.
    Stored(u128),
    /// Fetch the cover from its URL and store it.
    Fetch,
    /// There is no cover to show.
    Missing,
}

/// Where the cover of an episode with stored cover `cover_id` and cover URL
/// `cover` comes from: the stored image when there is one, otherwise the URL
/// unless it is empty.
pub fn episode_cover_source(cover_id: Option<u128>, cover: &str) -> (s: CoverSource)
    ensures
        s == (match cover_id {
            Some(id) => CoverSource::Stored(id),
            None => if cover@.len() == 0 {
                CoverSource::Missing
            } else {
                CoverSource::Fetch
            },
        }),
{
    match cover_id {
        Some(id) => CoverSource::Stored(id),
        None => if cover.unicode_len() == 0 {
            CoverSource::Missing
        } else {
            CoverSource::Fetch
        },
    }
}

/// Where the cover of an anime with stored cover `cover_id` comes from: the
/// stored image when there is one, otherwise it is fetched.
pub fn anime_cover_source(cover_id: Option<u128>) -> (s: CoverSource)
    ensures
        s == (match cover_id {
            Some(id) => CoverSource::Stored(id),
            None => CoverSource::Fetch,
        }),
{
    match cover_id {
        Some(id) => CoverSource::Stored(id),
        None => CoverSource::Fetch,
    }
}

/// Whether a fetched cover's MIME type is an image type (`image/...`).
pub fn is_image_mime(mime_type: &str) -> (b: bool)
    ensures
        b == starts_with(mime_type@, "image/"@),
{
    let m = str_chars(mime_type);
    let p = str_chars("image/");
    if p.len() > m.len() {
        return false;
    }
    let mut i: usize = 0;
    while i < p.len()
        invariant
            p@ == "image/"@,
            m@ == mime_type@,
            p@.len() <= m@.len(),
            0 <= i <= p@.len(),
            forall|k: int| 0 <= k < i ==> m@[k] == p@[k],
        decreases p@.len() - i,
    {
        if m[i] != p[i] {
            assert(m@.subrange(0, p@.len() as int)[i as int] != p@[i as int]);
            return false;
        }
        i = i + 1;
    }
    assert(m@.subrange(0, p@.len() as int) =~= p@);
    true
}

} // verus!
