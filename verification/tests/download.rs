use ani_dock::download::{
    continue_after_wait, step_after_download, DownloadBook, DownloadFailure, DownloadState,
    DownloadStatus, EpisodeDownloadEvent, WorkerStep, DOWNLOAD_COOLDOWN_SECS,
};
use ani_dock::model::Episode as CoreEpisode;
use ani_dock::routes::DownloadEvent;
use ani_dock::stored::{stored_series_from_entries, Anime, Episode};
use tokio::sync::{broadcast, mpsc};

fn channels() -> (
    mpsc::UnboundedSender<CoreEpisode>,
    mpsc::UnboundedReceiver<CoreEpisode>,
    broadcast::Sender<DownloadStatus>,
) {
    let (queue_tx, queue_rx) = mpsc::unbounded_channel();
    let (tx, _) = broadcast::channel(128);
    (queue_tx, queue_rx, tx)
}

fn failed(message: &str) -> DownloadState {
    DownloadState::Failed(DownloadFailure {
        message: message.to_owned(),
    })
}

#[test]
fn failed_download_can_be_scheduled_again() {
    const SN: u32 = 23_456;
    let (queue, mut worker, events) = channels();
    let mut book = DownloadBook::new(queue.clone(), events.clone());
    book.record(SN, failed("previous failure"));

    assert!(book.schedule_download(CoreEpisode::new(SN, 1, "")));

    assert_eq!(
        book.state(SN),
        Some(DownloadState::Event(EpisodeDownloadEvent::Pending))
    );
    assert_eq!(worker.try_recv().expect("retry should be queued").sn(), SN);
    assert!(worker.try_recv().is_err());
}

#[test]
fn completed_download_is_not_scheduled_again() {
    const SN: u32 = 34_567;
    let (queue, mut worker, events) = channels();
    let mut book = DownloadBook::new(queue.clone(), events.clone());
    book.record(SN, DownloadState::Event(EpisodeDownloadEvent::Completed));

    assert!(!book.schedule_download(CoreEpisode::new(SN, 1, "")));

    assert_eq!(
        book.state(SN),
        Some(DownloadState::Event(EpisodeDownloadEvent::Completed))
    );
    assert!(worker.try_recv().is_err());
}

#[test]
fn closed_queue_does_not_mark_download_as_pending() {
    const SN: u32 = 45_678;
    let (queue, worker, events) = channels();
    let mut rx = events.subscribe();
    drop(worker);
    let mut book = DownloadBook::new(queue.clone(), events.clone());

    assert!(!book.schedule_download(CoreEpisode::new(SN, 1, "")));

    assert!(!book.has_state(SN));
    assert!(matches!(
        rx.try_recv(),
        Err(broadcast::error::TryRecvError::Empty)
    ));
}

#[test]
fn downloads_are_queued_in_schedule_order() {
    const SNS: [u32; 3] = [56_789, 12_345, 34_567];
    let (queue, mut worker, events) = channels();
    let mut book = DownloadBook::new(queue.clone(), events.clone());

    for (index, sn) in SNS.into_iter().enumerate() {
        book.schedule_download(CoreEpisode::new(sn, index as u32 + 1, ""));
    }

    let queued: Vec<u32> = (0..SNS.len())
        .map(|_| worker.try_recv().expect("scheduled download should be queued").sn())
        .collect();
    assert_eq!(queued, SNS);
    let recorded: Vec<u32> = book.snapshot().iter().map(|s| s.sn).collect();
    assert_eq!(recorded, SNS);
    assert!(worker.try_recv().is_err());
}

#[test]
fn repeated_requests_schedule_only_one_download() {
    const SN: u32 = 12_345;
    let (queue, mut worker, events) = channels();
    let mut book = DownloadBook::new(queue.clone(), events.clone());

    for _ in 0..32 {
        book.schedule_download(CoreEpisode::new(SN, 1, ""));
    }

    assert_eq!(
        book.state(SN),
        Some(DownloadState::Event(EpisodeDownloadEvent::Pending))
    );
    assert_eq!(worker.try_recv().expect("one download should be queued").sn(), SN);
    assert!(worker.try_recv().is_err());
}

#[test]
fn subscribe_receives_broadcast_of_pending_state() {
    const SN: u32 = 67_890;
    let (queue, mut worker, events) = channels();
    let mut rx = events.subscribe();
    let mut book = DownloadBook::new(queue.clone(), events.clone());

    book.schedule_download(CoreEpisode::new(SN, 1, ""));

    let status = rx.try_recv().expect("schedule_download should broadcast a pending event");
    assert_eq!(status.sn, SN);
    assert_eq!(status.state, DownloadState::Event(EpisodeDownloadEvent::Pending));
    assert!(book
        .snapshot()
        .iter()
        .any(|s| s.sn == SN && s.state == DownloadState::Event(EpisodeDownloadEvent::Pending)));
    assert_eq!(worker.try_recv().expect("pending download should be queued").sn(), SN);
}

#[test]
fn recording_keeps_the_first_position_of_an_episode() {
    let (queue, _worker, events) = channels();
    let mut book = DownloadBook::new(queue.clone(), events.clone());
    book.record(1, DownloadState::Event(EpisodeDownloadEvent::Pending));
    book.record(2, DownloadState::Event(EpisodeDownloadEvent::Pending));
    book.record(1, DownloadState::Event(EpisodeDownloadEvent::Downloading { finished: 3, total: 10 }));

    let snapshot = book.snapshot();
    assert_eq!(snapshot.len(), 2);
    assert_eq!(snapshot[0].sn, 1);
    assert_eq!(
        snapshot[0].state,
        DownloadState::Event(EpisodeDownloadEvent::Downloading { finished: 3, total: 10 })
    );
    assert_eq!(snapshot[1].sn, 2);
}

#[test]
fn undownloaded_sns_leave_out_completed_episodes_only() {
    let (queue, _worker, events) = channels();
    let mut book = DownloadBook::new(queue.clone(), events.clone());
    book.record(10, DownloadState::Event(EpisodeDownloadEvent::Completed));
    book.record(20, failed("boom"));
    book.record(30, DownloadState::Event(EpisodeDownloadEvent::Merging));
    book.record(40, DownloadState::Event(EpisodeDownloadEvent::Pending));

    assert_eq!(book.undownloaded_sns(), vec![20, 30, 40]);
    assert!(book.is_error(20));
    assert!(!book.is_error(30));
    assert!(!book.is_error(99));
}

fn stored_episode(sn: u32, episode: u32) -> Episode {
    Episode {
        id: sn as u128,
        sn,
        cover: String::new(),
        cover_id: None,
        episode,
        create_at: 0,
        update_at: 0,
    }
}

fn pending_anime(sns: &[u32]) -> Anime {
    let episodes = sns
        .iter()
        .enumerate()
        .map(|(i, sn)| stored_episode(*sn, i as u32 + 1))
        .collect();
    Anime {
        id: 1,
        sn: 59_221,
        cover: "https://example.com/anime.jpg".to_owned(),
        cover_id: None,
        name: "测试动画".to_owned(),
        series: stored_series_from_entries(vec![("本篇".to_owned(), episodes)]),
        create_at: 0,
        update_at: 0,
    }
}

#[test]
fn restore_pending_downloads_schedules_persisted_work_without_http_request() {
    const PENDING_SN: u32 = 12_345;
    let (queue, mut worker, events) = channels();
    let mut book = DownloadBook::new(queue.clone(), events.clone());

    assert_eq!(
        book.restore_pending_downloads(vec![pending_anime(&[PENDING_SN])]),
        1
    );
    assert_eq!(worker.try_recv().expect("pending download should be queued").sn(), PENDING_SN);
    assert!(worker.try_recv().is_err());

    assert_eq!(
        book.restore_pending_downloads(vec![pending_anime(&[PENDING_SN])]),
        0
    );
    assert!(worker.try_recv().is_err());
}

#[test]
fn restore_skips_episodes_the_book_already_knows() {
    let (queue, mut worker, events) = channels();
    let mut book = DownloadBook::new(queue.clone(), events.clone());
    book.record(2, failed("earlier failure"));

    let restored = book.restore_pending_downloads(vec![pending_anime(&[1, 2, 3])]);

    assert_eq!(restored, 2);
    assert_eq!(worker.try_recv().unwrap().sn(), 1);
    assert_eq!(worker.try_recv().unwrap().sn(), 3);
    assert!(worker.try_recv().is_err());
    assert!(book.is_error(2));
}

#[test]
fn finish_download_records_failures_and_marks_successes() {
    let (queue, _worker, events) = channels();
    let mut rx = events.subscribe();
    let mut book = DownloadBook::new(queue.clone(), events.clone());
    book.record(7, DownloadState::Event(EpisodeDownloadEvent::Merging));
    book.record(8, DownloadState::Event(EpisodeDownloadEvent::Merging));
    while rx.try_recv().is_ok() {}

    assert!(book.finish_download(7, Ok(())));
    assert_eq!(book.state(7), Some(DownloadState::Event(EpisodeDownloadEvent::Merging)));
    assert!(rx.try_recv().is_err());

    assert!(!book.finish_download(8, Err("ffmpeg failed".to_owned())));
    assert_eq!(book.state(8), Some(failed("ffmpeg failed")));
    let status = rx.try_recv().expect("the failure should be announced");
    assert_eq!(status.sn, 8);
    assert_eq!(status.state, failed("ffmpeg failed"));
    assert!(book.is_error(8));
}

#[test]
fn worker_stops_on_a_closed_queue_and_waits_otherwise() {
    assert_eq!(step_after_download(true), WorkerStep::Stop);
    assert_eq!(step_after_download(false), WorkerStep::WaitCooldown);
    assert_eq!(DOWNLOAD_COOLDOWN_SECS, 24 * 60);
    assert!(continue_after_wait(false));
    assert!(!continue_after_wait(true));
}

#[test]
fn record_announces_exactly_the_recorded_state() {
    let (queue, _worker, events) = channels();
    let mut rx = events.subscribe();
    let mut book = DownloadBook::new(queue.clone(), events.clone());
    let progress = DownloadState::Event(EpisodeDownloadEvent::Downloading { finished: 2, total: 9 });

    book.record(5, progress.clone());

    let status = rx.try_recv().expect("the state should be announced");
    assert_eq!((status.sn, status.state), (5, progress));
    assert!(rx.try_recv().is_err());
}

#[test]
fn download_event_pairs_the_found_episode_with_the_state() {
    let status = DownloadStatus {
        sn: 12,
        state: DownloadState::Event(EpisodeDownloadEvent::Merging),
    };
    let event = DownloadEvent::from_download_status(status.clone(), Some(stored_episode(12, 3)))
        .expect("a found episode gives an event");
    assert_eq!(event.episode, stored_episode(12, 3));
    assert_eq!(event.state, DownloadState::Event(EpisodeDownloadEvent::Merging));

    assert!(DownloadEvent::from_download_status(status, None).is_none());
}
