use ani_dock::api::{ApiError, ErrorBody};
use ani_dock::request::{emulation_for_ua, log_preview, BrowserEmulation};
use ani_dock::resolver::AnimeResolveError;
use ani_dock::routes::{
    anime_cover_source, episode_cover_source, found_episodes, is_image_mime, requested_episodes,
    should_schedule, AnimeListing, CoverSource, SelectAnimesParam,
};
use ani_dock::stored::Episode;

#[test]
fn error_body_marks_failure() {
    let body = ErrorBody::new("资源不存在");
    assert!(!body.success());
    assert_eq!(body.message(), "资源不存在");
}

#[test]
fn api_errors_map_to_statuses_and_messages() {
    assert_eq!(ApiError::NotFound.status_code(), 404);
    assert_eq!(ApiError::EpisodeNotFound(3499).status_code(), 404);
    assert_eq!(ApiError::Db("x".to_owned()).status_code(), 500);
    assert_eq!(ApiError::Internal("boom".to_owned()).status_code(), 500);
    assert_eq!(
        ApiError::EpisodeNotFound(3499).message(),
        "未找到当前剧集，可能是未解析动画，剧集 sn 为 3499"
    );
    assert_eq!(ApiError::EpisodeNotFound(0).message(), "未找到当前剧集，可能是未解析动画，剧集 sn 为 0");
    assert_eq!(ApiError::Internal("boom".to_owned()).message(), "boom");
    assert_eq!(
        ApiError::ResolveAnimeError(AnimeResolveError::Http("timeout".to_owned())).message(),
        "解析动画发生错误：HTTP 请求失败: timeout"
    );
    let (status, body) = ApiError::NotFound.into_response();
    assert_eq!(status, 404);
    assert_eq!(body, ErrorBody::new("资源不存在"));
}

#[test]
fn emulation_follows_the_user_agent() {
    assert_eq!(
        emulation_for_ua("Mozilla/5.0 (X11; Linux x86_64; rv:109.0) Gecko/20100101 FireFox/115.0"),
        BrowserEmulation::Firefox109
    );
    assert_eq!(
        emulation_for_ua("Mozilla/5.0 AppleWebKit/537.36 Chrome/134.0 Safari/537.36 Edg/134.0"),
        BrowserEmulation::Edge134
    );
    assert_eq!(emulation_for_ua("Mozilla/5.0 (test)"), BrowserEmulation::Chrome137);
    assert_eq!(emulation_for_ua(""), BrowserEmulation::Chrome137);
}

#[test]
fn log_preview_is_capped() {
    assert_eq!(log_preview(10), (10, false));
    assert_eq!(log_preview(8192), (8192, false));
    assert_eq!(log_preview(8193), (8192, true));
}

#[test]
fn listing_follows_the_query() {
    assert_eq!(SelectAnimesParam::new(None).listing(), AnimeListing::All);
    assert_eq!(
        SelectAnimesParam::new(Some(true)).listing(),
        AnimeListing::ByDownloadStatus(true)
    );
}

fn stored(sn: u32) -> Episode {
    Episode {
        id: sn as u128,
        sn,
        cover: String::new(),
        cover_id: None,
        episode: 1,
        create_at: 0,
        update_at: 0,
    }
}

#[test]
fn download_request_fails_on_the_first_unknown_episode() {
    let sns = vec![1, 2, 3];
    match requested_episodes(&sns, vec![Some(stored(1)), None, None]) {
        Err(ApiError::EpisodeNotFound(sn)) => assert_eq!(sn, 2),
        other => panic!("expected EpisodeNotFound, got {other:?}"),
    }
    let episodes = requested_episodes(&sns, vec![Some(stored(1)), Some(stored(2)), Some(stored(3))])
        .expect("all episodes exist");
    assert_eq!(episodes.iter().map(|e| e.sn()).collect::<Vec<_>>(), vec![1, 2, 3]);
}

#[test]
fn scheduling_needs_a_new_row_or_a_failure() {
    assert!(should_schedule(true, false));
    assert!(should_schedule(false, true));
    assert!(!should_schedule(false, false));
}

#[test]
fn found_episodes_drop_the_missing_ones() {
    let found = found_episodes(vec![None, Some(stored(4)), None, Some(stored(5))]);
    assert_eq!(found.iter().map(|e| e.sn).collect::<Vec<_>>(), vec![4, 5]);
}

#[test]
fn cover_sources_follow_what_is_stored() {
    assert_eq!(episode_cover_source(Some(3), ""), CoverSource::Stored(3));
    assert_eq!(episode_cover_source(None, ""), CoverSource::Missing);
    assert_eq!(episode_cover_source(None, "https://x"), CoverSource::Fetch);
    assert_eq!(anime_cover_source(None), CoverSource::Fetch);
    assert_eq!(anime_cover_source(Some(1)), CoverSource::Stored(1));
}

#[test]
fn only_image_types_are_accepted_as_covers() {
    assert!(is_image_mime("image/png"));
    assert!(is_image_mime("image/"));
    assert!(!is_image_mime("text/plain"));
    assert!(!is_image_mime("image"));
}
