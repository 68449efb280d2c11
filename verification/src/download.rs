//! The download book: the state of every episode that was handed to the
//! download worker, in the order they were scheduled, and the rules by which
//! episodes are scheduled, retried and reported.
use indexmap::IndexMap;
use tokio::sync::{broadcast, mpsc};
use vstd::prelude::*;

use crate::channels::{EventChannel, WorkerQueue};
use crate::model::Episode;
use crate::ordered_map::{
    has_key, insert_entry, keys_distinct, keys_of, lemma_insert_keeps_distinct, lemma_key_index,
    value_of,
};

verus! {

/// Where the download of an episode stands.
#[derive(Debug, Clone, Copy, PartialEq, Eq)]
pub enum EpisodeDownloadEvent {
    /// Waiting in the queue.
    Pending,
    /// Fetching the episode's playlist and segment list.
    Preparing,
    /// Fetching segments: `finished` of `total` are done.
    Downloading { finished: u64, total: u64 },
    /// Joining the segments into the output file.
    Merging,
    /// The output file is complete.
    Completed,
}

/// Why a download failed.
#[derive(Debug, Clone, PartialEq, Eq)]
pub struct DownloadFailure {
    pub message: String,
}

/// The state of a download: an event, or the failure that ended it.
#[derive(Debug, Clone, PartialEq, Eq)]
pub enum DownloadState {
    /// The download reached this stage.
    Event(EpisodeDownloadEvent),
    /// The download failed.
    Failed(DownloadFailure),
}

/// The state of the download of episode `sn`, as it is announced to
/// subscribers.
#[derive(Debug, Clone)]
pub struct DownloadStatus {
    pub sn: u32,
    pub state: DownloadState,
}

/// A copy of a download state.
pub fn copy_state(s: &DownloadState) -> (r: DownloadState)
    ensures
        r == *s,
{
    match s {
        DownloadState::Event(e) => DownloadState::Event(*e),
        DownloadState::Failed(f) => DownloadState::Failed(DownloadFailure { message: f.message.clone() }),
    }
}

/// The entries of the book's map: episode sn to download state, in the order
/// the episodes were first recorded.
pub uninterp spec fn book_entries(m: IndexMap<u32, DownloadState>) -> Seq<(u32, DownloadState)>;

/// An empty map (`IndexMap::new`).
#[verifier::external_body]
fn book_map_new() -> (m: IndexMap<u32, DownloadState>)
    ensures
        book_entries(m) == Seq::<(u32, DownloadState)>::empty(),
{
    IndexMap::new()
}

/// The number of entries (`IndexMap::len`).
#[verifier::external_body]
fn book_map_len(m: &IndexMap<u32, DownloadState>) -> (n: usize)
    ensures
        n == book_entries(*m).len(),
{
    m.len()
}

/// The position of the entry for `sn` (`IndexMap::get_index_of`).
#[verifier::external_body]
fn book_map_index_of(m: &IndexMap<u32, DownloadState>, sn: u32) -> (r: Option<usize>)
    ensures
        r matches Some(i) ==> i < book_entries(*m).len() && book_entries(*m)[i as int].0 == sn,
        r is None ==> !has_key(book_entries(*m), sn),
{
    m.get_index_of(&sn)
}

/// The entry at position `i` (`IndexMap::get_index`).
#[verifier::external_body]
fn book_map_get_index(m: &IndexMap<u32, DownloadState>, i: usize) -> (r: Option<(&u32, &DownloadState)>)
    ensures
        i < book_entries(*m).len() ==> r is Some,
        i >= book_entries(*m).len() ==> r is None,
        r matches Some(p) ==> *p.0 == book_entries(*m)[i as int].0 && *p.1 == book_entries(
            *m,
        )[i as int].1,
{
    m.get_index(i)
}

/// Records `state` for `sn` (`IndexMap::insert`): an existing entry keeps its
/// position and takes the new state, otherwise the entry is appended.
#[verifier::external_body]
fn book_map_insert(m: &mut IndexMap<u32, DownloadState>, sn: u32, state: DownloadState)
    ensures
        book_entries(*final(m)) == insert_entry(book_entries(*old(m)), sn, state),
{
    m.insert(sn, state);
}

/// Whether the episode must be (re)scheduled: it has no state yet, or its last
/// download failed.
pub open spec fn needs_schedule(entries: Seq<(u32, DownloadState)>, sn: u32) -> bool {
    match value_of(entries, sn) {
        None => true,
        Some(DownloadState::Failed(_)) => true,
        Some(DownloadState::Event(_)) => false,
    }
}

/// The sns whose download has not completed, in book order.
pub open spec fn undownloaded(entries: Seq<(u32, DownloadState)>) -> Seq<u32>
    decreases entries.len(),
{
    if entries.len() == 0 {
        Seq::empty()
    } else {
        let prev = undownloaded(entries.drop_last());
        if entries.last().1 == DownloadState::Event(EpisodeDownloadEvent::Completed) {
            prev
        } else {
            prev.push(entries.last().0)
        }
    }
}

/// The book as the statuses announced to subscribers, in book order.
pub open spec fn snapshot_of(entries: Seq<(u32, DownloadState)>) -> Seq<DownloadStatus> {
    entries.map_values(|e: (u32, DownloadState)| DownloadStatus { sn: e.0, state: e.1 })
}

/// The undownloaded episodes are exactly the entries whose state is not a
/// completed download, in book order: pending, running and failed downloads
/// are all listed, completed ones never.
pub proof fn law_undownloaded_leaves_out_completed_only(entries: Seq<(u32, DownloadState)>)
    ensures
        undownloaded(entries) == keys_of(
            entries.filter(
            |e: (u32, DownloadState)| e.1 != DownloadState::Event(EpisodeDownloadEvent::Completed),
        ),
        ),
    decreases entries.len(),
{
    if entries.len() > 0 {
        let rest = entries.drop_last();
        law_undownloaded_leaves_out_completed_only(rest);
        assert(rest.push(entries.last()) =~= entries);
        rest.lemma_filter_push(
            entries.last(),
            |e: (u32, DownloadState)| e.1 != DownloadState::Event(EpisodeDownloadEvent::Completed),
        );
        if entries.last().1 != DownloadState::Event(EpisodeDownloadEvent::Completed) {
            let kept = rest.filter(
            |e: (u32, DownloadState)| e.1 != DownloadState::Event(EpisodeDownloadEvent::Completed),
        );
            assert(keys_of(kept.push(entries.last())) =~= keys_of(kept).push(entries.last().0));
        }
    }
}

/// The snapshot has one status per entry of the book, in book order, each
/// with the entry's sn and state.
pub proof fn law_snapshot_lists_every_entry(entries: Seq<(u32, DownloadState)>)
    ensures
        snapshot_of(entries).len() == entries.len(),
        forall|i: int|
            0 <= i < entries.len() ==> #[trigger] snapshot_of(entries)[i] == (DownloadStatus {
                sn: entries[i].0,
                state: entries[i].1,
            }),
{
}

/// Once an episode is pending, scheduling it again changes nothing: with the
/// contract of `DownloadBook::schedule_download`, which offers nothing to the
/// worker's queue for an episode that does not need scheduling, an episode
/// reaches the worker at most once until its download fails.
pub proof fn law_pending_is_not_rescheduled(entries: Seq<(u32, DownloadState)>, sn: u32)
    requires
        keys_distinct(entries),
    ensures
        !needs_schedule(
            insert_entry(entries, sn, DownloadState::Event(EpisodeDownloadEvent::Pending)),
            sn,
        ),
{
    lemma_insert_keeps_distinct(entries, sn, DownloadState::Event(EpisodeDownloadEvent::Pending));
}

/// A failed download is scheduled again; one that is pending, running or
/// complete is not.
pub proof fn law_only_failed_or_unknown_is_scheduled(entries: Seq<(u32, DownloadState)>, sn: u32)
    ensures
        needs_schedule(entries, sn) <==> (!has_key(entries, sn) || value_of(entries, sn) matches Some(
            DownloadState::Failed(_),
        )),
{
}

/// A newly scheduled episode goes last in the book, so the book lists
/// episodes in the order they were queued.
pub proof fn law_new_episode_goes_last(entries: Seq<(u32, DownloadState)>, sn: u32, state: DownloadState)
    requires
        !has_key(entries, sn),
    ensures
        keys_of(insert_entry(entries, sn, state)) == keys_of(entries).push(sn),
{
    assert(keys_of(insert_entry(entries, sn, state)) =~= keys_of(entries).push(sn));
}

/// Recording a new state of a known episode keeps the order of the book.
pub proof fn law_update_keeps_order(entries: Seq<(u32, DownloadState)>, sn: u32, state: DownloadState)
    requires
        has_key(entries, sn),
    ensures
        keys_of(insert_entry(entries, sn, state)) == keys_of(entries),
{
    let i = choose|i: int| 0 <= i < entries.len() && #[trigger] entries[i].0 == sn;
    assert(keys_of(insert_entry(entries, sn, state)) =~= keys_of(entries));
}

/// The sns of a sequence of episodes.
pub open spec fn sns_of(eps: Seq<Episode>) -> Seq<u32> {
    eps.map_values(|e: Episode| e@.0)
}

/// One scheduling of `episode` on the book entries `entries` and the
/// episodes `handed` to the worker so far, where `accepted` is the queue's
/// answer: an episode that needs scheduling and is accepted becomes pending
/// and reaches the worker; otherwise nothing changes.
pub open spec fn schedule_step(
    entries: Seq<(u32, DownloadState)>,
    handed: Seq<Episode>,
    episode: Episode,
    accepted: bool,
) -> (Seq<(u32, DownloadState)>, Seq<Episode>) {
    if needs_schedule(entries, episode@.0) && accepted {
        (
            insert_entry(entries, episode@.0, DownloadState::Event(EpisodeDownloadEvent::Pending)),
            handed.push(episode),
        )
    } else {
        (entries, handed)
    }
}

/// The book entries and the episodes handed to the worker after scheduling
/// `eps` in turn, the queue answering `accepted[i]` to `eps[i]`.
pub open spec fn schedule_trace(
    entries: Seq<(u32, DownloadState)>,
    handed: Seq<Episode>,
    eps: Seq<Episode>,
    accepted: Seq<bool>,
) -> (Seq<(u32, DownloadState)>, Seq<Episode>)
    decreases eps.len(),
{
    if eps.len() == 0 {
        (entries, handed)
    } else {
        let p = schedule_trace(entries, handed, eps.drop_last(), accepted);
        schedule_step(p.0, p.1, eps.last(), accepted[eps.len() - 1])
    }
}

/// No entry holds a failed download.
pub open spec fn no_failures(entries: Seq<(u32, DownloadState)>) -> bool {
    forall|i: int| 0 <= i < entries.len() ==> !(#[trigger] entries[i].1 is Failed)
}

/// Episodes reach the worker in the order their entries are added to the
/// book: over any run of schedulings, whatever the queue answers, the entries
/// already there stay, and when none of them is a failure (which would be
/// retried in place) the worker receives exactly the episodes of the added
/// entries, in book order.
pub proof fn law_handed_in_book_order(
    entries: Seq<(u32, DownloadState)>,
    handed: Seq<Episode>,
    eps: Seq<Episode>,
    accepted: Seq<bool>,
)
    requires
        keys_distinct(entries),
        no_failures(entries),
        accepted.len() >= eps.len(),
    ensures
        ({
            let (e, h) = schedule_trace(entries, handed, eps, accepted);
            &&& keys_distinct(e)
            &&& no_failures(e)
            &&& e.len() >= entries.len()
            &&& e.take(entries.len() as int) == entries
            &&& h.len() >= handed.len()
            &&& h.take(handed.len() as int) == handed
            &&& sns_of(h.skip(handed.len() as int)) == keys_of(e.skip(entries.len() as int))
        }),
    decreases eps.len(),
{
    if eps.len() == 0 {
        assert(entries.take(entries.len() as int) =~= entries);
        assert(handed.take(handed.len() as int) =~= handed);
        assert(sns_of(handed.skip(handed.len() as int)) =~= Seq::<u32>::empty());
        assert(keys_of(entries.skip(entries.len() as int)) =~= Seq::<u32>::empty());
    } else {
        law_handed_in_book_order(entries, handed, eps.drop_last(), accepted);
        let p = schedule_trace(entries, handed, eps.drop_last(), accepted);
        let ep = eps.last();
        let sn = ep@.0;
        let pend = DownloadState::Event(EpisodeDownloadEvent::Pending);
        if needs_schedule(p.0, sn) && accepted[eps.len() - 1] {
            assert(!has_key(p.0, sn)) by {
                if has_key(p.0, sn) {
                    let i = choose|i: int| 0 <= i < p.0.len() && #[trigger] p.0[i].0 == sn;
                    assert(!(p.0[i].1 is Failed));
                }
            }
            let e = p.0.push((sn, pend));
            let h = p.1.push(ep);
            assert(insert_entry(p.0, sn, pend) == e);
            lemma_insert_keeps_distinct(p.0, sn, pend);
            assert forall|i: int| 0 <= i < e.len() implies !(#[trigger] e[i].1 is Failed) by {
                if i < p.0.len() {
                    assert(e[i] == p.0[i]);
                }
            }
            assert(e.take(entries.len() as int) =~= p.0.take(entries.len() as int));
            assert(h.take(handed.len() as int) =~= p.1.take(handed.len() as int));
            assert(e.skip(entries.len() as int) =~= p.0.skip(entries.len() as int).push((sn, pend)));
            assert(h.skip(handed.len() as int) =~= p.1.skip(handed.len() as int).push(ep));
            assert(sns_of(h.skip(handed.len() as int)) =~= sns_of(p.1.skip(handed.len() as int)).push(sn));
            assert(keys_of(e.skip(entries.len() as int)) =~= keys_of(p.0.skip(entries.len() as int)).push(
                sn,
            ));
        }
    }
}

/// The book's map from episode sn to download state; no sn has two entries.
struct StateMap {
    states: IndexMap<u32, DownloadState>,
}

impl StateMap {
    /// Every map holds each sn at most once.
    #[verifier::type_invariant]
    spec fn distinct(&self) -> bool {
        keys_distinct(book_entries(self.states))
    }

    /// The entries, in order.
    spec fn entries(&self) -> Seq<(u32, DownloadState)> {
        book_entries(self.states)
    }

    /// An empty map.
    fn new() -> (m: StateMap)
        ensures
            m.entries() == Seq::<(u32, DownloadState)>::empty(),
    {
        StateMap { states: book_map_new() }
    }

    /// Records `state` for `sn`: an existing entry keeps its position and
    /// takes the new state, otherwise the entry is appended.
    fn insert(&mut self, sn: u32, state: DownloadState)
        ensures
            final(self).entries() == insert_entry(old(self).entries(), sn, state),
    {
        proof {
            use_type_invariant(&*self);
            lemma_insert_keeps_distinct(self.entries(), sn, state);
        }
        let mut states = book_map_new();
        std::mem::swap(&mut states, &mut self.states);
        book_map_insert(&mut states, sn, state);
        self.states = states;
    }
}

/// The state of every episode handed to the download worker, with the
/// worker's queue and the channel that announces state changes.
pub struct DownloadBook {
    map: StateMap,
    queue: WorkerQueue,
    events: EventChannel,
}

impl View for DownloadBook {
    type V = Seq<(u32, DownloadState)>;

    closed spec fn view(&self) -> Seq<(u32, DownloadState)> {
        self.map.entries()
    }
}

impl DownloadBook {
    /// The episodes this book offered to the worker's queue, in order.
    pub closed spec fn offered(&self) -> Seq<Episode> {
        self.queue.attempted()
    }

    /// The episodes the worker's queue took in from this book, in order:
    /// what the worker receives from it.
    pub closed spec fn handed(&self) -> Seq<Episode> {
        self.queue.sent()
    }

    /// The statuses this book announced to subscribers, in order.
    pub closed spec fn announced(&self) -> Seq<DownloadStatus> {
        self.events.announced()
    }

    /// An empty book that hands episodes to `queue` and announces state
    /// changes on `events`.
    pub fn new(queue: mpsc::UnboundedSender<Episode>, events: broadcast::Sender<DownloadStatus>) -> (b:
        DownloadBook)
        ensures
            b@ == Seq::<(u32, DownloadState)>::empty(),
            b.offered() == Seq::<Episode>::empty(),
            b.handed() == Seq::<Episode>::empty(),
            b.announced() == Seq::<DownloadStatus>::empty(),
    {
        DownloadBook {
            map: StateMap::new(),
            queue: WorkerQueue::new(queue),
            events: EventChannel::new(events),
        }
    }

    /// Whether episode `sn` has a state.
    pub fn has_state(&self, sn: u32) -> (r: bool)
        ensures
            r == has_key(self@, sn),
    {
        book_map_index_of(&self.map.states, sn).is_some()
    }

    /// The state of episode `sn`, if it has one.
    pub fn state(&self, sn: u32) -> (r: Option<DownloadState>)
        ensures
            r == value_of(self@, sn),
    {
        proof {
            use_type_invariant(&self.map);
        }
        match book_map_index_of(&self.map.states, sn) {
            Some(i) => {
                proof {
                    lemma_key_index(self@, sn, i as int);
                }
                match book_map_get_index(&self.map.states, i) {
                    Some((_, st)) => Some(copy_state(st)),
                    None => None,
                }
            },
            None => None,
        }
    }

    /// Whether the last download of episode `sn` failed.
    pub fn is_error(&self, sn: u32) -> (r: bool)
        ensures
            r == (value_of(self@, sn) matches Some(DownloadState::Failed(_))),
    {
        match self.state(sn) {
            Some(DownloadState::Failed(_)) => true,
            _ => false,
        }
    }

    /// Offers `episode` to the worker's queue; returns whether the queue
    /// took it in.
    fn offer(&mut self, episode: Episode) -> (sent: bool)
        ensures
            final(self)@ == old(self)@,
            final(self).offered() == old(self).offered().push(episode),
            sent ==> final(self).handed() == old(self).handed().push(episode),
            !sent ==> final(self).handed() == old(self).handed(),
            final(self).announced() == old(self).announced(),
    {
        self.queue.send(episode)
    }

    /// Records `state` for episode `sn` and announces it to subscribers: an
    /// episode that already has a state keeps its place in the book.
    pub fn record(&mut self, sn: u32, state: DownloadState)
        ensures
            final(self)@ == insert_entry(old(self)@, sn, state),
            final(self).announced() == old(self).announced().push(DownloadStatus { sn, state }),
            final(self).offered() == old(self).offered(),
            final(self).handed() == old(self).handed(),
    {

        let announced = copy_state(&state);
        self.map.insert(sn, state);
        self.events.announce(DownloadStatus { sn, state: announced });
    }

    /// Schedules the download of `episode`, unless it is already pending,
    /// running or complete: an episode without a state, or whose last download
    /// failed, is offered to the worker's queue and, when the queue accepts it,
    /// marked pending and announced. Returns whether the episode was queued;
    /// the book, what the worker receives and what is announced change exactly
    /// when it was.
    pub fn schedule_download(&mut self, episode: Episode) -> (queued: bool)
        ensures
            needs_schedule(old(self)@, episode@.0) ==> final(self).offered() == old(
                self,
            ).offered().push(episode),
            !needs_schedule(old(self)@, episode@.0) ==> final(self).offered() == old(self).offered(),
            queued ==> needs_schedule(old(self)@, episode@.0),
            queued ==> final(self)@ == insert_entry(
                old(self)@,
                episode@.0,
                DownloadState::Event(EpisodeDownloadEvent::Pending),
            ),
            queued ==> final(self).handed() == old(self).handed().push(episode),
            queued ==> final(self).announced() == old(self).announced().push(
                DownloadStatus { sn: episode@.0, state: DownloadState::Event(EpisodeDownloadEvent::Pending) },
            ),
            !queued ==> final(self)@ == old(self)@,
            !queued ==> final(self).handed() == old(self).handed(),
            !queued ==> final(self).announced() == old(self).announced(),
            (final(self)@, final(self).handed()) == schedule_step(
                old(self)@,
                old(self).handed(),
                episode,
                queued,
            ),
    {
        let sn = episode.sn();
        match self.state(sn) {
            Some(DownloadState::Event(_)) => {
                return false;
            },
            _ => {},
        }
        let sent = self.offer(episode);
        if sent {
            self.record(sn, DownloadState::Event(EpisodeDownloadEvent::Pending));
        }
        sent
    }

    /// Ends the download of episode `sn` with `outcome`: a failure is recorded
    /// and announced with its message; a success leaves the book as it is (its
    /// last event was announced while it ran). Returns whether the episode is
    /// to be marked downloaded in the persistent queue, which is exactly when
    /// the download succeeded.
    pub fn finish_download(&mut self, sn: u32, outcome: Result<(), String>) -> (mark_downloaded: bool)
        ensures
            mark_downloaded == outcome is Ok,
            outcome is Ok ==> final(self)@ == old(self)@ && final(self).announced() == old(
                self,
            ).announced(),
            outcome matches Err(m) ==> final(self)@ == insert_entry(
                old(self)@,
                sn,
                DownloadState::Failed(DownloadFailure { message: m }),
            ) && final(self).announced() == old(self).announced().push(
                DownloadStatus { sn, state: DownloadState::Failed(DownloadFailure { message: m }) },
            ),
            final(self).offered() == old(self).offered(),
            final(self).handed() == old(self).handed(),
    {
        match outcome {
            Ok(()) => true,
            Err(message) => {
                self.record(sn, DownloadState::Failed(DownloadFailure { message }));
                false
            },
        }
    }

    /// The sns of the episodes whose download has not completed, in book order.
    pub fn undownloaded_sns(&self) -> (r: Vec<u32>)
        ensures
            r@ == undownloaded(self@),
            r@ == keys_of(
                self@.filter(
                    |e: (u32, DownloadState)| e.1 != DownloadState::Event(
                        EpisodeDownloadEvent::Completed,
                    ),
                ),
            ),
    {
        let n = book_map_len(&self.map.states);
        let mut out: Vec<u32> = Vec::new();
        let mut i: usize = 0;
        assert(self@.take(0) =~= Seq::<(u32, DownloadState)>::empty());
        while i < n
            invariant
                n == self@.len(),
                0 <= i <= n,
                out@ == undownloaded(self@.take(i as int)),
            decreases n - i,
        {
            assert(self@.take(i + 1).drop_last() =~= self@.take(i as int));
            match book_map_get_index(&self.map.states, i) {
                Some((sn, st)) => {
                    match st {
                        DownloadState::Event(EpisodeDownloadEvent::Completed) => {},
                        _ => {
                            out.push(*sn);
                        },
                    }
                },
                None => {},
            }
            i = i + 1;
        }
        assert(self@.take(n as int) =~= self@);
        proof {
            law_undownloaded_leaves_out_completed_only(self@);
        }
        out
    }

    /// Every episode's status, in book order.
    pub fn snapshot(&self) -> (r: Vec<DownloadStatus>)
        ensures
            r@ == snapshot_of(self@),
            r@.len() == self@.len(),
            forall|i: int|
                0 <= i < self@.len() ==> #[trigger] r@[i] == (DownloadStatus {
                    sn: self@[i].0,
                    state: self@[i].1,
                }),
    {
        let n = book_map_len(&self.map.states);
        let mut out: Vec<DownloadStatus> = Vec::new();
        let mut i: usize = 0;
        while i < n
            invariant
                n == self@.len(),
                0 <= i <= n,
                out@ == snapshot_of(self@.take(i as int)),
            decreases n - i,
        {
            match book_map_get_index(&self.map.states, i) {
                Some((sn, st)) => {
                    out.push(DownloadStatus { sn: *sn, state: copy_state(st) });
                },
                None => {},
            }
            i = i + 1;
            assert(out@ =~= snapshot_of(self@.take(i as int)));
        }
        assert(self@.take(n as int) =~= self@);
        out
    }
}

/// What the download worker does once a download has ended.
#[derive(Debug, Clone, Copy, PartialEq, Eq)]
pub enum WorkerStep {
    /// The queue is closed: stop, leaving queued work for the next start.
    Stop,
    /// Wait out the cooldown before the next download.
    WaitCooldown,
}

/// The least time between the starts of two downloads, in seconds (24
/// minutes, as a person watching would take).
pub const DOWNLOAD_COOLDOWN_SECS: u64 = 1440;

/// The worker's step after a download: it stops when its queue is closed and
/// waits out the cooldown otherwise.
pub fn step_after_download(queue_closed: bool) -> (s: WorkerStep)
    ensures
        s == (if queue_closed {
            WorkerStep::Stop
        } else {
            WorkerStep::WaitCooldown
        }),
{
    if queue_closed {
        WorkerStep::Stop
    } else {
        WorkerStep::WaitCooldown
    }
}

/// Whether the worker goes on after waiting: not when shutdown was requested
/// before the cooldown ended.
pub fn continue_after_wait(shutdown_first: bool) -> (go_on: bool)
    ensures
        go_on == !shutdown_first,
{
    !shutdown_first
}

} // verus!
