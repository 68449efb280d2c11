use ani_dock::cache::EpisodeCache;
use ani_dock::catalog::{list_animes, JoinedRow};
use ani_dock::stored::{anime_from_row, AnimeRow, Episode, EpisodeRow};

fn row(anime: u128, sn: u32, series: &str, episode_sn: u32, episode: u32) -> JoinedRow {
    JoinedRow {
        id: anime,
        sn,
        cover: format!("https://example.com/anime-{sn}.jpg"),
        name: "進擊的巨人".to_owned(),
        create_at: 1,
        update_at: 2,
        series_name: series.to_owned(),
        episode_id: episode_sn as u128 + 1000,
        episode_sn,
        episode_cover: format!("https://example.com/{episode_sn}.jpg"),
        cover_id: None,
        episode_episode: episode,
        episode_create_at: 3,
        episode_update_at: 4,
    }
}

#[test]
fn select_all_returns_empty_vec_when_database_is_empty() {
    assert!(list_animes(Vec::new()).is_empty());
}

#[test]
fn listing_groups_rows_by_anime_and_series() {
    let animes = list_animes(vec![
        row(1, 3499, "第一季", 3499, 1),
        row(1, 3499, "第一季", 3500, 2),
        row(2, 20273, "本篇", 20273, 1),
        row(1, 3499, "第二季", 50002, 1),
    ]);

    assert_eq!(animes.len(), 2);
    let first = &animes[0];
    assert_eq!(first.sn, 3499);
    assert_eq!(first.name, "進擊的巨人");
    assert_eq!(first.cover, "https://example.com/anime-3499.jpg");
    assert_eq!(first.series.len(), 2);
    let season = &first.series["第一季"];
    assert_eq!(season.iter().map(|e| e.sn).collect::<Vec<_>>(), vec![3499, 3500]);
    assert_eq!(season[1].cover, "https://example.com/3500.jpg");
    assert_eq!(season[1].episode, 2);
    assert_eq!(first.series["第二季"][0].sn, 50002);
    assert_eq!(first.series.get_index(0).unwrap().0, "第一季");

    let second = &animes[1];
    assert_eq!(second.sn, 20273);
    assert_eq!(second.series["本篇"].len(), 1);
}

fn stored(sn: u32, cover: &str, update_at: i128) -> Episode {
    Episode {
        id: 7,
        sn,
        cover: cover.to_owned(),
        cover_id: None,
        episode: 1,
        create_at: 0,
        update_at,
    }
}

#[test]
fn resolve_caches_repository_result() {
    let mut cache = EpisodeCache::new();
    assert_eq!(cache.get(12_345), None);
    assert!(cache.update_cache(stored(12_345, "https://example.com/episode.jpg", 10)));
    assert_eq!(
        cache.get(12_345),
        Some(stored(12_345, "https://example.com/episode.jpg", 10))
    );
}

#[test]
fn older_episode_does_not_replace_newer_cached_value() {
    let mut cache = EpisodeCache::new();
    let newer = stored(12_345, "https://example.com/newer-episode.jpg", 11);
    let older = stored(12_345, "https://example.com/episode.jpg", 10);
    assert!(cache.update_cache(newer.clone()));
    assert!(!cache.update_cache(older));
    assert_eq!(cache.get(12_345), Some(newer));
}

#[test]
fn same_time_record_does_not_replace_cached_value() {
    let mut cache = EpisodeCache::new();
    cache.update_cache(stored(1, "a", 5));
    assert!(!cache.update_cache(stored(1, "b", 5)));
    assert_eq!(cache.get(1).unwrap().cover, "a");
}

#[test]
fn anime_row_converts_without_series() {
    let anime = anime_from_row(AnimeRow {
        id: 9,
        sn: 3499,
        cover: "c".to_owned(),
        cover_id: Some(4),
        name: "n".to_owned(),
        create_at: 1,
        update_at: 2,
    });
    assert_eq!((anime.id, anime.sn, anime.cover_id), (9, 3499, Some(4)));
    assert!(anime.series.is_empty());
}

#[test]
fn episode_row_converts_field_for_field() {
    let episode = Episode::from(EpisodeRow {
        id: 5,
        sn: 3499,
        cover: "c".to_owned(),
        cover_id: None,
        episode: 2,
        series_id: 8,
        create_at: 1,
        update_at: 2,
    });
    assert_eq!(episode, Episode { id: 5, sn: 3499, cover: "c".to_owned(), cover_id: None, episode: 2, create_at: 1, update_at: 2 });
    let core = ani_dock::model::Episode::from(episode);
    assert_eq!(core, ani_dock::model::Episode::new(3499, 2, "c"));
}

#[test]
fn remember_caches_a_found_episode_and_returns_the_lookup() {
    let mut cache = EpisodeCache::new();
    assert_eq!(cache.remember(None), None);
    assert_eq!(cache.get(7), None);

    let found = stored(7, "https://example.com/7.jpg", 3);
    assert_eq!(cache.remember(Some(found.clone())), Some(found.clone()));
    assert_eq!(cache.get(7), Some(found));
}

#[test]
fn rows_in_query_order_give_a_sorted_listing() {
    let animes = list_animes(vec![
        row(1, 3499, "第一季", 3499, 1),
        row(1, 3499, "第一季", 3500, 2),
        row(1, 3499, "第二季", 50002, 1),
        row(1, 3499, "第二季", 50003, 2),
        row(7, 20273, "本篇", 20273, 1),
        row(9, 49780, "電影", 49780, 1),
    ]);

    let ids: Vec<u128> = animes.iter().map(|a| a.id).collect();
    assert_eq!(ids, vec![1, 7, 9]);
    let names: Vec<&String> = animes[0].series.keys().collect();
    assert_eq!(names, vec!["第一季", "第二季"]);
    assert!("第一季" < "第二季");
    for episodes in animes[0].series.values() {
        let numbers: Vec<u32> = episodes.iter().map(|e| e.episode).collect();
        assert_eq!(numbers, vec![1, 2]);
    }
}
