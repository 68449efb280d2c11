//! Restoring the downloads that were persisted but not finished: every
//! pending episode that the download book does not know yet is scheduled
//! again.
use vstd::prelude::*;

use crate::download::{sns_of, DownloadBook, DownloadState, DownloadStatus, EpisodeDownloadEvent};
use crate::model::Episode as CoreEpisode;
use crate::ordered_map::{has_key, insert_entry, keys_of};
use crate::stored::{stored_series_entries, stored_series_into_entries, stored_series_view, Anime, Episode};

verus! {

/// The sns of the episodes of a list of series, series by series.
pub open spec fn series_sns(entries: Seq<(Seq<char>, Seq<Episode>)>) -> Seq<u32>
    decreases entries.len(),
{
    if entries.len() == 0 {
        Seq::empty()
    } else {
        series_sns(entries.drop_last()) + entries.last().1.map_values(|e: Episode| e.sn)
    }
}

/// The sns of the episodes of a list of anime, anime by anime, series by
/// series.
pub open spec fn anime_sns(animes: Seq<Anime>) -> Seq<u32>
    decreases animes.len(),
{
    if animes.len() == 0 {
        Seq::empty()
    } else {
        anime_sns(animes.drop_last()) + series_sns(stored_series_entries(animes.last().series))
    }
}

/// The sns of several lists of series are those of each list in turn: the
/// sns of `a` followed by those of `b`.
pub proof fn law_series_sns_concat(a: Seq<(Seq<char>, Seq<Episode>)>, b: Seq<(Seq<char>, Seq<Episode>)>)
    ensures
        series_sns(a + b) == series_sns(a) + series_sns(b),
    decreases b.len(),
{
    if b.len() == 0 {
        assert(a + b =~= a);
        assert(series_sns(a) + Seq::<u32>::empty() =~= series_sns(a));
    } else {
        let b0 = b.drop_last();
        law_series_sns_concat(a, b0);
        assert((a + b).drop_last() =~= a + b0);
        assert((a + b).last() == b.last());
        let tail = b.last().1.map_values(|e: Episode| e.sn);
        assert(series_sns(a) + series_sns(b0) + tail =~= series_sns(a) + (series_sns(b0) + tail));
    }
}

/// The sns of one series are its episodes' sns, in order.
pub proof fn law_series_sns_single(s: (Seq<char>, Seq<Episode>))
    ensures
        series_sns(seq![s]) == s.1.map_values(|e: Episode| e.sn),
{
    let one = seq![s];
    assert(one.len() == 1 && one.last() == s);
    assert(one.drop_last() =~= Seq::<(Seq<char>, Seq<Episode>)>::empty());
    assert(series_sns(one.drop_last()) == Seq::<u32>::empty());
    assert(series_sns(one) == series_sns(one.drop_last()) + s.1.map_values(|e: Episode| e.sn));
    assert(Seq::<u32>::empty() + s.1.map_values(|e: Episode| e.sn) =~= s.1.map_values(
        |e: Episode| e.sn,
    ));
}

/// No anime, no sns.
pub proof fn law_anime_sns_empty()
    ensures
        anime_sns(Seq::<Anime>::empty()) == Seq::<u32>::empty(),
{
}

/// The sns of several anime are those of each anime in turn: the sns of `a`
/// followed by those of `b`. No anime is left out.
pub proof fn law_anime_sns_concat(a: Seq<Anime>, b: Seq<Anime>)
    ensures
        anime_sns(a + b) == anime_sns(a) + anime_sns(b),
    decreases b.len(),
{
    if b.len() == 0 {
        assert(a + b =~= a);
        assert(anime_sns(a) + Seq::<u32>::empty() =~= anime_sns(a));
    } else {
        let b0 = b.drop_last();
        law_anime_sns_concat(a, b0);
        assert((a + b).drop_last() =~= a + b0);
        assert((a + b).last() == b.last());
        let tail = series_sns(stored_series_entries(b.last().series));
        assert(anime_sns(a) + anime_sns(b0) + tail =~= anime_sns(a) + (anime_sns(b0) + tail));
    }
}

/// The sns of one anime are those of its series, in the series' order.
pub proof fn law_anime_sns_single(x: Anime)
    ensures
        anime_sns(seq![x]) == series_sns(stored_series_entries(x.series)),
{
    let one = seq![x];
    assert(one.len() == 1 && one.last() == x);
    assert(one.drop_last() =~= Seq::<Anime>::empty());
    assert(anime_sns(one.drop_last()) == Seq::<u32>::empty());
    assert(anime_sns(one) == anime_sns(one.drop_last()) + series_sns(stored_series_entries(x.series)));
    assert(Seq::<u32>::empty() + series_sns(stored_series_entries(x.series)) =~= series_sns(
        stored_series_entries(x.series),
    ));
}

/// How many of the sns have no entry in the book.
pub open spec fn absent_count(sns: Seq<u32>, entries: Seq<(u32, DownloadState)>) -> nat
    decreases sns.len(),
{
    if sns.len() == 0 {
        0
    } else {
        absent_count(sns.drop_last(), entries) + if has_key(entries, sns.last()) {
            0nat
        } else {
            1nat
        }
    }
}

/// When the book knows every sn, nothing is left to restore: restoring the
/// same pending work a second time schedules nothing.
pub proof fn law_nothing_left_to_restore(sns: Seq<u32>, entries: Seq<(u32, DownloadState)>)
    requires
        forall|i: int| 0 <= i < sns.len() ==> has_key(entries, #[trigger] sns[i]),
    ensures
        absent_count(sns, entries) == 0,
    decreases sns.len(),
{
    if sns.len() > 0 {
        let p = sns.drop_last();
        assert(has_key(entries, sns[sns.len() - 1]));
        assert forall|i: int| 0 <= i < p.len() implies has_key(entries, #[trigger] p[i]) by {
            assert(p[i] == sns[i]);
        }
        law_nothing_left_to_restore(p, entries);
    }
}

/// `cur` is `old` with entries appended, each a pending episode whose sn is
/// among `done` and had no entry in `old`.
pub open spec fn extends_with_pending(
    old: Seq<(u32, DownloadState)>,
    cur: Seq<(u32, DownloadState)>,
    done: Seq<u32>,
) -> bool {
    &&& cur.len() >= old.len()
    &&& forall|i: int| 0 <= i < old.len() ==> #[trigger] cur[i] == old[i]
    &&& forall|i: int|
        old.len() <= i < cur.len() ==> #[trigger] cur[i].1 == DownloadState::Event(
            EpisodeDownloadEvent::Pending,
        ) && done.contains(cur[i].0) && !has_key(old, cur[i].0)
}

/// The book entries after one restored episode `x`.
proof fn lemma_restore_entries(
    old: Seq<(u32, DownloadState)>,
    cur: Seq<(u32, DownloadState)>,
    next: Seq<(u32, DownloadState)>,
    done: Seq<u32>,
    x: u32,
    restored: int,
    counted: bool,
)
    requires
        extends_with_pending(old, cur, done),
        restored <= absent_count(done, old),
        done.no_duplicates() ==> restored == absent_count(done, old),
        counted == !has_key(cur, x),
        counted ==> next == cur || next == cur.push(
            (x, DownloadState::Event(EpisodeDownloadEvent::Pending)),
        ),
        !counted ==> next == cur,
    ensures
        extends_with_pending(old, next, done.push(x)),
        restored + (if counted {
            1int
        } else {
            0int
        }) <= absent_count(done.push(x), old),
        done.push(x).no_duplicates() ==> restored + (if counted {
            1int
        } else {
            0int
        }) == absent_count(done.push(x), old),
{
    let d2 = done.push(x);
    assert(d2.drop_last() =~= done);
    assert(d2.last() == x);
    assert forall|y: u32| done.contains(y) implies d2.contains(y) by {
        let k = choose|k: int| 0 <= k < done.len() && done[k] == y;
        assert(d2[k] == y);
    }
    assert(d2.contains(x)) by {
        assert(d2[done.len() as int] == x);
    }
    if has_key(old, x) {
        let i = choose|i: int| 0 <= i < old.len() && #[trigger] old[i].0 == x;
        assert(cur[i].0 == x);
        assert(!counted);
    }
    if d2.no_duplicates() {
        assert(done.no_duplicates()) by {
            assert forall|a: int, b: int|
                0 <= a < done.len() && 0 <= b < done.len() && a != b implies done[a] != done[b] by {
                assert(d2[a] == done[a]);
                assert(d2[b] == done[b]);
            }
        }
        if !counted {
            let i = choose|i: int| 0 <= i < cur.len() && #[trigger] cur[i].0 == x;
            if i >= old.len() {
                assert(cur[i].1 == DownloadState::Event(EpisodeDownloadEvent::Pending) && done.contains(
                    cur[i].0,
                ) && !has_key(old, cur[i].0));
                assert(done.contains(x));
                let k = choose|k: int| 0 <= k < done.len() && done[k] == x;
                assert(d2[k] == d2[done.len() as int]);
            } else {
                assert(old[i].0 == x);
            }
        }
    }
    if next != cur {
        assert(next == cur.push((x, DownloadState::Event(EpisodeDownloadEvent::Pending))));
        assert(next[cur.len() as int].0 == x);
        assert(forall|i: int| 0 <= i < cur.len() ==> next[i] == cur[i]);
    }
}

/// The statuses announced for entries that became pending.
pub open spec fn pending_statuses(entries: Seq<(u32, DownloadState)>) -> Seq<DownloadStatus> {
    entries.map_values(
        |e: (u32, DownloadState)|
            DownloadStatus { sn: e.0, state: DownloadState::Event(EpisodeDownloadEvent::Pending) },
    )
}

/// The sns of `done` that the book entries `entries` do not know, in order.
pub open spec fn unknown_sns(done: Seq<u32>, entries: Seq<(u32, DownloadState)>) -> Seq<u32> {
    done.filter(|x: u32| !has_key(entries, x))
}

/// `cur` is the book `old` after restoring the sns `done`, `restored` of
/// which were counted:
/// - the entries of `old` stay, and each entry added is a pending episode of
///   `done` that `old` did not know;
/// - the episodes offered to the worker's queue are those of `old` followed
///   by `restored` more, each an unknown sn of `done`; every unknown sn of
///   `done` is among them, and when no sn of `done` repeats they are exactly
///   the unknown sns of `done`, in order;
/// - the worker received, after what it had, exactly the episodes of the
///   added entries, in their order, and each was announced as pending;
/// - at most the unknown sns are counted, and exactly those when no sn
///   repeats.
pub open spec fn restored_from(old: DownloadBook, cur: DownloadBook, done: Seq<u32>, restored: int) -> bool {
    let n_off = old.offered().len() as int;
    let n_hand = old.handed().len() as int;
    let new_off = sns_of(cur.offered().skip(n_off));
    let new_entries = cur@.skip(old@.len() as int);
    &&& extends_with_pending(old@, cur@, done)
    &&& cur.offered().len() == n_off + restored
    &&& cur.offered().take(n_off) == old.offered()
    &&& forall|i: int|
        0 <= i < new_off.len() ==> !has_key(old@, #[trigger] new_off[i]) && done.contains(new_off[i])
    &&& forall|y: u32| done.contains(y) && !has_key(old@, y) ==> #[trigger] new_off.contains(y)
    &&& forall|j: int| 0 <= j < new_entries.len() ==> new_off.contains(#[trigger] new_entries[j].0)
    &&& done.no_duplicates() ==> new_off == unknown_sns(done, old@)
    &&& cur.handed().len() >= n_hand
    &&& cur.handed().take(n_hand) == old.handed()
    &&& sns_of(cur.handed().skip(n_hand)) == keys_of(new_entries)
    &&& cur.announced() == old.announced() + pending_statuses(new_entries)
    &&& restored <= absent_count(done, old@)
    &&& done.no_duplicates() ==> restored == absent_count(done, old@)
    &&& 0 <= restored <= done.len()
}

/// Nothing restored yet.
proof fn lemma_restore_start(old: DownloadBook)
    ensures
        restored_from(old, old, Seq::empty(), 0),
{
    assert(old.offered().take(old.offered().len() as int) =~= old.offered());
    assert(old.handed().take(old.handed().len() as int) =~= old.handed());
    assert(sns_of(old.offered().skip(old.offered().len() as int)) =~= Seq::<u32>::empty());
    assert(sns_of(old.handed().skip(old.handed().len() as int)) =~= Seq::<u32>::empty());
    assert(old@.skip(old@.len() as int) =~= Seq::<(u32, DownloadState)>::empty());
    assert(keys_of(old@.skip(old@.len() as int)) =~= Seq::<u32>::empty());
    assert(pending_statuses(old@.skip(old@.len() as int)) =~= Seq::<DownloadStatus>::empty());
    assert(old.announced() + Seq::<DownloadStatus>::empty() =~= old.announced());
    assert(unknown_sns(Seq::empty(), old@) =~= Seq::<u32>::empty()) by {
        reveal(Seq::filter);
    }
}

/// The bookkeeping of one restored episode `e` with sn `x`: when `counted`,
/// it was offered and then either queued (`next` gains its entry) or refused.
proof fn lemma_restore_step(
    old: DownloadBook,
    cur: DownloadBook,
    next: DownloadBook,
    done: Seq<u32>,
    x: u32,
    e: CoreEpisode,
    restored: int,
    counted: bool,
)
    requires
        restored_from(old, cur, done, restored),
        counted == !has_key(cur@, x),
        e@.0 == x,
        !counted ==> next == cur,
        counted ==> next.offered() == cur.offered().push(e),
        counted ==> ((next@ == cur@.push((x, DownloadState::Event(EpisodeDownloadEvent::Pending)))
            && next.handed() == cur.handed().push(e) && next.announced() == cur.announced().push(
            DownloadStatus { sn: x, state: DownloadState::Event(EpisodeDownloadEvent::Pending) },
        )) || (next@ == cur@ && next.handed() == cur.handed() && next.announced()
            == cur.announced())),
    ensures
        restored_from(
            old,
            next,
            done.push(x),
            restored + (if counted {
                1int
            } else {
                0int
            }),
        ),
{
    let d2 = done.push(x);
    let n_off = old.offered().len() as int;
    let n_hand = old.handed().len() as int;
    let new_off = sns_of(cur.offered().skip(n_off));
    let new_off2 = sns_of(next.offered().skip(n_off));
    let new_entries = cur@.skip(old@.len() as int);
    let new_entries2 = next@.skip(old@.len() as int);
    let pend = (x, DownloadState::Event(EpisodeDownloadEvent::Pending));
    let queued = counted && next@ == cur@.push(pend);
    lemma_restore_entries(old@, cur@, next@, done, x, restored, counted);
    assert(d2.drop_last() =~= done);
    assert(d2.contains(x)) by {
        assert(d2[done.len() as int] == x);
    }
    assert forall|y: u32| done.contains(y) implies d2.contains(y) by {
        let k = choose|k: int| 0 <= k < done.len() && done[k] == y;
        assert(d2[k] == y);
    }
    assert forall|y: u32| d2.contains(y) && y != x implies done.contains(y) by {
        let k = choose|k: int| 0 <= k < d2.len() && d2[k] == y;
        assert(k < done.len());
        assert(done[k] == y);
    }
    // the entries of `old` are a prefix of those of `cur`
    assert(has_key(old@, x) ==> has_key(cur@, x)) by {
        if has_key(old@, x) {
            let i = choose|i: int| 0 <= i < old@.len() && #[trigger] old@[i].0 == x;
            assert(cur@[i].0 == x);
        }
    }
    if counted {
        assert(next.offered().skip(n_off) =~= cur.offered().skip(n_off).push(e));
        assert(new_off2 =~= new_off.push(x));
        assert(next.offered().take(n_off) =~= cur.offered().take(n_off));
        assert(!has_key(old@, x));
    } else {
        assert(new_off2 == new_off);
    }
    // the offered sns
    assert forall|i: int| 0 <= i < new_off2.len() implies !has_key(old@, #[trigger] new_off2[i])
        && d2.contains(new_off2[i]) by {
        if i < new_off.len() {
            assert(new_off2[i] == new_off[i]);
        }
    }
    assert forall|j: int| 0 <= j < new_entries2.len() implies new_off2.contains(
        #[trigger] new_entries2[j].0,
    ) by {
        if j < new_entries.len() {
            assert(new_entries2[j] == new_entries[j]);
            let k = choose|k: int| 0 <= k < new_off.len() && new_off[k] == new_entries[j].0;
            assert(new_off2[k] == new_off[k]);
        } else {
            assert(queued);
            assert(new_entries2[j].0 == x);
            assert(new_off2[new_off.len() as int] == x);
        }
    }
    assert forall|y: u32| d2.contains(y) && !has_key(old@, y) implies #[trigger] new_off2.contains(
        y,
    ) by {
        if y == x {
            if counted {
                assert(new_off2[new_off.len() as int] == x);
            } else {
                let i = choose|i: int| 0 <= i < cur@.len() && #[trigger] cur@[i].0 == x;
                if i < old@.len() {
                    assert(old@[i].0 == x);
                }
                assert(new_entries[i - old@.len()].0 == x);
            }
        } else {
            assert(done.contains(y));
            assert(new_off.contains(y));
            if counted {
                let k = choose|k: int| 0 <= k < new_off.len() && new_off[k] == y;
                assert(new_off2[k] == y);
            }
        }
    }
    if d2.no_duplicates() {
        assert(done.no_duplicates()) by {
            assert forall|a: int, b: int|
                0 <= a < done.len() && 0 <= b < done.len() && a != b implies done[a] != done[b] by {
                assert(d2[a] == done[a]);
                assert(d2[b] == done[b]);
            }
        }
        assert(!done.contains(x)) by {
            if done.contains(x) {
                let k = choose|k: int| 0 <= k < done.len() && done[k] == x;
                assert(d2[k] == d2[done.len() as int]);
            }
        }
        done.lemma_filter_push(x, |y: u32| !has_key(old@, y));
        assert(unknown_sns(d2, old@) == if !has_key(old@, x) {
            unknown_sns(done, old@).push(x)
        } else {
            unknown_sns(done, old@)
        });
        if !has_key(old@, x) {
            assert(counted) by {
                if has_key(cur@, x) {
                    let i = choose|i: int| 0 <= i < cur@.len() && #[trigger] cur@[i].0 == x;
                    if i < old@.len() {
                        assert(old@[i].0 == x);
                    }
                    assert(done.contains(cur@[i].0));
                }
            }
        }
    }
    // what the worker received and what was announced
    if queued {
        assert(new_entries2 =~= new_entries.push(pend));
        assert(keys_of(new_entries2) =~= keys_of(new_entries).push(x));
        assert(next.handed().skip(n_hand) =~= cur.handed().skip(n_hand).push(e));
        assert(sns_of(next.handed().skip(n_hand)) =~= sns_of(cur.handed().skip(n_hand)).push(x));
        assert(next.handed().take(n_hand) =~= cur.handed().take(n_hand));
        assert(pending_statuses(new_entries2) =~= pending_statuses(new_entries).push(
            DownloadStatus { sn: x, state: DownloadState::Event(EpisodeDownloadEvent::Pending) },
        ));
        assert(next.announced() =~= old.announced() + pending_statuses(new_entries2));
    } else {
        assert(next@ == cur@);
        assert(new_entries2 == new_entries);
    }
}

impl DownloadBook {
    /// Schedules again every episode of `animes` (the anime with pending
    /// downloads, as stored) that has no state in the book yet, in anime,
    /// series and episode order, and returns how many it offered to the
    /// worker's queue; see `restored_from` for what the book, the worker's
    /// queue and the announcements hold afterwards.
    pub fn restore_pending_downloads(&mut self, animes: Vec<Anime>) -> (restored: usize)
        requires
            anime_sns(animes@).len() <= usize::MAX,
        ensures
            restored_from(*old(self), *final(self), anime_sns(animes@), restored as int),
    {
        let ghost start: DownloadBook = *self;
        let ghost all = animes@;
        let ghost mut done: Seq<u32> = Seq::empty();
        let mut restored: usize = 0;
        let mut rest = Vec::new();
        let mut src = animes;
        while src.len() > 0
            invariant
                src@ == all.take(src@.len() as int),
                rest@.len() + src@.len() == all.len(),
                forall|k: int| 0 <= k < rest@.len() ==> #[trigger] rest@[k] == all[all.len() - 1 - k],
            decreases src@.len(),
        {
            let a = src.pop().unwrap();
            rest.push(a);
            assert(src@ =~= all.take(src@.len() as int));
        }
        let ghost mut ai: int = 0;
        assert(all.take(0) =~= Seq::<Anime>::empty());
        proof {
            lemma_restore_start(start);
        }
        while rest.len() > 0
            invariant
                0 <= ai <= all.len(),
                rest@.len() == all.len() - ai,
                forall|k: int| 0 <= k < rest@.len() ==> #[trigger] rest@[k] == all[all.len() - 1 - k],
                anime_sns(all).len() <= usize::MAX,
                done == anime_sns(all.take(ai)),
                restored_from(start, *self, done, restored as int),
            decreases rest@.len(),
        {
            let anime = rest.pop().unwrap();
            assert(anime == all[ai]);
            assert(all.take(ai + 1).drop_last() =~= all.take(ai));
            let entries = stored_series_into_entries(anime.series);
            let ghost sv = stored_series_view(entries@);
            let ghost base = done;
            assert(sv.take(0) =~= Seq::<(Seq<char>, Seq<Episode>)>::empty());
            proof {
                lemma_prefix_len(all, ai + 1);
            }
            let mut j: usize = 0;
            while j < entries.len()
                invariant
                    0 <= j <= entries@.len(),
                    sv == stored_series_view(entries@),
                    sv == stored_series_entries(all[ai].series),
                    done == base + series_sns(sv.take(j as int)),
                    base == anime_sns(all.take(ai)),
                    anime_sns(all.take(ai + 1)).len() <= usize::MAX,
                    anime_sns(all.take(ai + 1)) == base + series_sns(sv),
                    restored_from(start, *self, done, restored as int),
                decreases entries@.len() - j,
            {
                let eps = &entries[j].1;
                let ghost ebase = done;
                assert(sv.take(j + 1).drop_last() =~= sv.take(j as int));
                assert(sv.take(j + 1).last() == sv[j as int]);
                assert(sv[j as int].1 == eps@);
                proof {
                    lemma_prefix_len_series(sv, j + 1);
                }
                let mut k: usize = 0;
                while k < eps.len()
                    invariant
                        0 <= k <= eps@.len(),
                        done == ebase + eps@.take(k as int).map_values(|e: Episode| e.sn),
                        ebase + eps@.map_values(|e: Episode| e.sn) == base + series_sns(
                            sv.take(j + 1),
                        ),
                        (base + series_sns(sv.take(j + 1))).len() <= usize::MAX,
                        restored_from(start, *self, done, restored as int),
                    decreases eps@.len() - k,
                {
                    let ep = &eps[k];
                    let sn = ep.sn;
                    let ghost cur: DownloadBook = *self;
                    let counted = !self.has_state(sn);
                    let core = CoreEpisode::from_parts(sn, ep.episode, ep.cover.clone());
                    let ghost ce = core;
                    if counted {
                        let queued = self.schedule_download(core);
                        proof {
                            if queued {
                                assert(insert_entry(
                                    cur@,
                                    sn,
                                    DownloadState::Event(EpisodeDownloadEvent::Pending),
                                ) == cur@.push((sn, DownloadState::Event(EpisodeDownloadEvent::Pending))));
                            }
                        }
                    }
                    proof {
                        lemma_restore_step(start, cur, *self, done, sn, ce, restored as int, counted);
                        assert(eps@.take(k + 1).map_values(|e: Episode| e.sn) =~= eps@.take(
                            k as int,
                        ).map_values(|e: Episode| e.sn).push(sn));
                        assert((ebase + eps@.take(k as int).map_values(|e: Episode| e.sn)).push(sn)
                            =~= ebase + eps@.take(k + 1).map_values(|e: Episode| e.sn));
                        assert(done.len() + 1 <= (base + series_sns(sv.take(j + 1))).len()) by {
                            assert(eps@.take(k + 1).map_values(|e: Episode| e.sn).len() <= eps@.len());
                        }
                    }
                    if counted {
                        restored = restored + 1;
                    }
                    proof {
                        done = done.push(sn);
                    }
                    k = k + 1;
                }
                assert(eps@.take(eps@.len() as int) =~= eps@);
                j = j + 1;
            }
            assert(sv.take(sv.len() as int) =~= sv);
            proof {
                ai = ai + 1;
            }
        }
        assert(all.take(all.len() as int) =~= all);
        restored
    }
}

/// The sns of a prefix of the anime are at most as many as those of all.
proof fn lemma_prefix_len(all: Seq<Anime>, n: int)
    requires
        0 <= n <= all.len(),
    ensures
        anime_sns(all.take(n)).len() <= anime_sns(all).len(),
    decreases all.len() - n,
{
    if n < all.len() {
        lemma_prefix_len(all, n + 1);
        assert(all.take(n + 1).drop_last() =~= all.take(n));
    } else {
        assert(all.take(n) =~= all);
    }
}

/// The sns of a prefix of the series are at most as many as those of all.
proof fn lemma_prefix_len_series(all: Seq<(Seq<char>, Seq<Episode>)>, n: int)
    requires
        0 <= n <= all.len(),
    ensures
        series_sns(all.take(n)).len() <= series_sns(all).len(),
    decreases all.len() - n,
{
    if n < all.len() {
        lemma_prefix_len_series(all, n + 1);
        assert(all.take(n + 1).drop_last() =~= all.take(n));
    } else {
        assert(all.take(n) =~= all);
    }
}

} // verus!
