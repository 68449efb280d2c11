use ani_dock::model::{Anime, Episode};
use ani_dock::resolver::{assemble_anime, build_series, first_episode_sn, AnimeResolveError};
use ani_dock::stored::{create_anime_from_core, CreateAnime, CreateEpisode};
use indexmap::IndexMap;

fn series(name: &str, sns: &[(u32, u32)]) -> (String, Vec<Episode>) {
    (
        name.to_owned(),
        sns.iter().map(|(episode, sn)| Episode::new(*sn, *episode, "")).collect(),
    )
}

#[test]
fn build_series_keeps_series_in_order() {
    let map = build_series(vec![
        series("本篇", &[(1, 3499), (2, 3500)]),
        series("中文配音", &[(1, 20273)]),
    ])
    .expect("distinct series names should build");
    assert_eq!(
        map,
        IndexMap::from([
            (
                "本篇".to_owned(),
                vec![Episode::new(3499, 1, ""), Episode::new(3500, 2, "")]
            ),
            ("中文配音".to_owned(), vec![Episode::new(20273, 1, "")]),
        ])
    );
    assert_eq!(map.get_index(0).unwrap().0, "本篇");
}

#[test]
fn build_series_reports_the_first_repeated_name() {
    let result = build_series(vec![
        series("a", &[(1, 1)]),
        series("b", &[(1, 2)]),
        series("b", &[(1, 3)]),
        series("a", &[(1, 4)]),
    ]);
    match result {
        Err(AnimeResolveError::SeriesNameCollision(name)) => assert_eq!(name, "b"),
        other => panic!("expected a collision, got {other:?}"),
    }
}

#[test]
fn first_episode_sn_needs_an_episode() {
    assert_eq!(
        first_episode_sn(&vec![Episode::new(49780, 1, "x")]).unwrap(),
        49780
    );
    match first_episode_sn(&Vec::new()) {
        Err(AnimeResolveError::Unexpected(message)) => {
            assert_eq!(message, "应该存在剧集的，不然下载什么")
        }
        other => panic!("expected an unexpected-state error, got {other:?}"),
    }
}

#[test]
fn assembled_anime_exposes_its_parts() {
    let anime = assemble_anime(
        114091,
        vec![series("電影", &[(1, 49780)])],
        "https://p2.bahamut.com.tw/B/ACG/c/37/0000143537.JPG",
        Ok("name".to_owned()),
    )
    .expect("one series cannot collide");
    assert_eq!(anime.sn(), 114091);
    assert_eq!(anime.cover(), "https://p2.bahamut.com.tw/B/ACG/c/37/0000143537.JPG");
    assert_eq!(anime.name(), "name");
    assert_eq!(
        anime.series(),
        &IndexMap::from([("電影".to_owned(), vec![Episode::new(49780, 1, "")])])
    );
    let (sn, map, cover, name) = anime.into_parts();
    assert_eq!((sn, map.len(), cover.as_str(), name.as_str()), (114091, 1, "https://p2.bahamut.com.tw/B/ACG/c/37/0000143537.JPG", "name"));
}

#[test]
fn episode_accessors_give_back_the_fields() {
    let episode = Episode::new(3499, 1, "cover.jpg");
    assert_eq!(episode.sn(), 3499);
    assert_eq!(episode.episode(), 1);
    assert_eq!(episode.cover(), "cover.jpg");
    assert_eq!(episode.into_parts(), (3499, 1, "cover.jpg".to_owned()));
}

#[test]
fn create_anime_keeps_every_field() {
    let anime = Anime::new(
        3499,
        IndexMap::from([
            ("第二季".to_owned(), vec![Episode::new(50002, 1, "https://example.com/50002.jpg")]),
            ("第一季".to_owned(), vec![Episode::new(3499, 1, "https://example.com/3499.jpg")]),
        ]),
        "https://example.com/anime-3499.jpg",
        "進擊的巨人",
    );
    let created: CreateAnime = create_anime_from_core(anime);
    assert_eq!(created.sn, 3499);
    assert_eq!(created.cover, "https://example.com/anime-3499.jpg");
    assert_eq!(created.name, "進擊的巨人");
    let keys: Vec<&String> = created.series.keys().collect();
    assert_eq!(keys, vec!["第二季", "第一季"]);
    assert_eq!(
        created.series["第一季"],
        vec![CreateEpisode {
            sn: 3499,
            cover: "https://example.com/3499.jpg".to_owned(),
            episode: 1
        }]
    );
    let via_from = CreateAnime::from(Anime::new(1, IndexMap::new(), "c", "n"));
    assert!(via_from.series.is_empty());
}

#[test]
fn resolve_error_messages_name_the_cause() {
    assert_eq!(
        AnimeResolveError::SeriesNameCollision("本篇".to_owned()).message(),
        "剧集名称解析存在重复，请携带该动画 sn 提 issue 报告此问题：本篇"
    );
    assert_eq!(AnimeResolveError::Api("x".to_owned()).message(), "动画疯接口请求错误：x");
}

#[test]
fn series_collision_is_reported_before_a_bad_title() {
    let collided = assemble_anime(
        1,
        vec![series("本篇", &[(1, 10)]), series("本篇", &[(1, 11)])],
        "",
        Err(AnimeResolveError::ResolveAnimeNameOrSeriesName("title".to_owned())),
    );
    assert!(matches!(collided, Err(AnimeResolveError::SeriesNameCollision(n)) if n == "本篇"));

    let bad_title = assemble_anime(
        1,
        vec![series("本篇", &[(1, 10)])],
        "",
        Err(AnimeResolveError::ResolveAnimeNameOrSeriesName("title".to_owned())),
    );
    assert!(matches!(bad_title, Err(AnimeResolveError::ResolveAnimeNameOrSeriesName(t)) if t == "title"));
}
