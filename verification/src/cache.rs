//! The episode cache in front of the episode table: a newer record of an
//! episode replaces an older one, never the other way round.
use rustc_hash::{FxBuildHasher, FxHashMap};
use vstd::prelude::*;

use crate::stored::Episode;

verus! {

/// `rustc_hash::FxBuildHasher`, known to Verus as an opaque type.
#[verifier::external_type_specification]
#[verifier::external_body]
pub struct ExFxBuildHasher(FxBuildHasher);

/// The episodes a cache map holds, by sn.
pub uninterp spec fn cached_episodes(m: FxHashMap<u32, Episode>) -> Map<u32, Episode>;

/// An empty map (`FxHashMap::default`).
#[verifier::external_body]
fn episode_map_new() -> (made: FxHashMap<u32, Episode>)
    ensures
        cached_episodes(made).dom() == Set::<u32>::empty(),
{
    FxHashMap::default()
}

/// The episode held under `sn` (`HashMap::get`).
#[verifier::external_body]
fn episode_map_get(m: &FxHashMap<u32, Episode>, sn: u32) -> (r: Option<&Episode>)
    ensures
        cached_episodes(*m).contains_key(sn) ==> r == Some(&cached_episodes(*m)[sn]),
        !cached_episodes(*m).contains_key(sn) ==> r is None,
{
    m.get(&sn)
}

/// Holds `ep` under `sn`, replacing what was held there (`HashMap::insert`).
#[verifier::external_body]
fn episode_map_insert(m: &mut FxHashMap<u32, Episode>, sn: u32, ep: Episode)
    ensures
        cached_episodes(*final(m)) == cached_episodes(*old(m)).insert(sn, ep),
{
    m.insert(sn, ep);
}

/// Whether `ep` is to replace what the cache holds for its sn: nothing is
/// cached yet, or `ep` was updated later than the cached record.
pub open spec fn replaces(cached: Map<u32, Episode>, ep: Episode) -> bool {
    !cached.contains_key(ep.sn) || ep.update_at > cached[ep.sn].update_at
}

/// Episodes by sn.
pub struct EpisodeCache {
    entries: FxHashMap<u32, Episode>,
}

impl View for EpisodeCache {
    type V = Map<u32, Episode>;

    closed spec fn view(&self) -> Map<u32, Episode> {
        cached_episodes(self.entries)
    }
}

impl EpisodeCache {
    /// An empty cache.
    pub fn new() -> (c: EpisodeCache)
        ensures
            c@ == Map::<u32, Episode>::empty(),
    {
        let c = EpisodeCache { entries: episode_map_new() };
        assert(c@ =~= Map::<u32, Episode>::empty());
        c
    }

    /// The cached record of episode `sn`, if any.
    pub fn get(&self, sn: u32) -> (r: Option<Episode>)
        ensures
            r == (if self@.contains_key(sn) {
                Some(self@[sn])
            } else {
                None
            }),
    {
        match episode_map_get(&self.entries, sn) {
            Some(e) => Some(e.copy()),
            None => None,
        }
    }

    /// Caches `ep` unless a record of the same episode that was updated at the
    /// same time or later is cached already. Returns whether `ep` was cached.
    pub fn update_cache(&mut self, ep: Episode) -> (updated: bool)
        ensures
            updated == replaces(old(self)@, ep),
            updated ==> final(self)@ == old(self)@.insert(ep.sn, ep),
            !updated ==> final(self)@ == old(self)@,
            final(self)@.contains_key(ep.sn),
            final(self)@[ep.sn].update_at >= ep.update_at,
            forall|sn: u32| #[trigger]
                old(self)@.contains_key(sn) ==> final(self)@.contains_key(sn)
                    && final(self)@[sn].update_at >= old(self)@[sn].update_at,
    {
        let should_update = match episode_map_get(&self.entries, ep.sn) {
            Some(cached) => ep.update_at > cached.update_at,
            None => true,
        };
        if should_update {
            episode_map_insert(&mut self.entries, ep.sn, ep);
        }
        should_update
    }

    /// Keeps the outcome `found` of looking an episode up in the episode
    /// table: a found episode is cached as `update_cache` does. Returns the
    /// outcome unchanged.
    pub fn remember(&mut self, found: Option<Episode>) -> (r: Option<Episode>)
        ensures
            r == found,
            found is None ==> final(self)@ == old(self)@,
            found matches Some(e) ==> final(self)@ == (if replaces(old(self)@, e) {
                old(self)@.insert(e.sn, e)
            } else {
                old(self)@
            }),
    {
        match found {
            Some(e) => {
                self.update_cache(e.copy());
                Some(e)
            },
            None => None,
        }
    }
}

} // verus!
