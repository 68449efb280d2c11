//! The sending halves of the download worker's queue and of the channel
//! that announces download states, each with the record of what was sent
//! through it. Only the sending methods below change a record.
use tokio::sync::{broadcast, mpsc};
use vstd::prelude::*;

use crate::download::DownloadStatus;
use crate::model::Episode;

verus! {

/// `tokio::sync::mpsc::UnboundedSender`, known to Verus as an opaque type.
#[verifier::external_type_specification]
#[verifier::external_body]
#[verifier::reject_recursive_types(T)]
pub struct ExUnboundedSender<T>(mpsc::UnboundedSender<T>);

/// `tokio::sync::broadcast::Sender`, known to Verus as an opaque type.
#[verifier::external_type_specification]
#[verifier::external_body]
#[verifier::reject_recursive_types(T)]
pub struct ExBroadcastSender<T>(broadcast::Sender<T>);

/// The sending half of the download worker's queue, with the record of what
/// was sent through it.
pub struct WorkerQueue {
    tx: mpsc::UnboundedSender<Episode>,
    attempted: Ghost<Seq<Episode>>,
    sent: Ghost<Seq<Episode>>,
}

impl WorkerQueue {
    /// The episodes handed to `send`, in order.
    pub closed spec fn attempted(&self) -> Seq<Episode> {
        self.attempted@
    }

    /// The episodes the channel took in through `send`, in order: what the
    /// worker receives from this queue.
    pub closed spec fn sent(&self) -> Seq<Episode> {
        self.sent@
    }

    /// The queue that sends on `tx`; nothing has been sent through it yet.
    pub fn new(tx: mpsc::UnboundedSender<Episode>) -> (q: WorkerQueue)
        ensures
            q.attempted() == Seq::<Episode>::empty(),
            q.sent() == Seq::<Episode>::empty(),
    {
        WorkerQueue { tx, attempted: Ghost(Seq::empty()), sent: Ghost(Seq::empty()) }
    }

    /// Sends `episode` to the worker (`UnboundedSender::send`), which takes
    /// it in exactly when the call returns `Ok`, that is while the worker's
    /// receiver is open. The call is recorded in `attempted`, and in `sent`
    /// when it was taken in. Whether it is taken in depends on the worker, so
    /// nothing is promised of `accepted` itself.
    #[verifier::external_body]
    pub(crate) fn send(&mut self, episode: Episode) -> (accepted: bool)
        ensures
            final(self).attempted() == old(self).attempted().push(episode),
            accepted ==> final(self).sent() == old(self).sent().push(episode),
            !accepted ==> final(self).sent() == old(self).sent(),
    {
        self.tx.send(episode).is_ok()
    }
}

/// The sending half of the channel that announces download states, with the
/// record of what was announced through it.
pub struct EventChannel {
    tx: broadcast::Sender<DownloadStatus>,
    announced: Ghost<Seq<DownloadStatus>>,
}

impl EventChannel {
    /// The statuses announced through `announce`, in order.
    pub closed spec fn announced(&self) -> Seq<DownloadStatus> {
        self.announced@
    }

    /// The channel that announces on `tx`; nothing has been announced through
    /// it yet.
    pub fn new(tx: broadcast::Sender<DownloadStatus>) -> (c: EventChannel)
        ensures
            c.announced() == Seq::<DownloadStatus>::empty(),
    {
        EventChannel { tx, announced: Ghost(Seq::empty()) }
    }

    /// Sends `status` to the current subscribers (`broadcast::Sender::send`),
    /// which is recorded in `announced`; having no subscriber is not an error
    /// here.
    #[verifier::external_body]
    pub(crate) fn announce(&mut self, status: DownloadStatus)
        ensures
            final(self).announced() == old(self).announced().push(status),
    {
        let _ = self.tx.send(status);
    }
}

} // verus!
