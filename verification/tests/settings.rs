use ani_dock::config::{Config, ConfigVersion, DownloadResolution, InternalConfig};
use ani_dock::cookie::Cookie;
use ani_dock::settings::{plan_settings_update, Settings, SettingsConfig};

#[test]
fn settings_config_converts_to_config_and_back_preserving_all_fields() {
    let config = Config {
        download_resolution: DownloadResolution::P720,
        lock_resolution: true,
        only_use_vip: true,
        multi_downloading_segment: 4,
        ua: "Mozilla/5.0 (custom)".to_owned(),
        proxy: Some("http://127.0.0.1:8080".to_owned()),
        ads_time: 40,
        internal: InternalConfig {
            config_version: ConfigVersion { major: 2, minor: 1 },
        },
    };

    let settings_config = SettingsConfig::from(config.clone());
    assert_eq!(Config::from(settings_config.clone()), config);
    assert_eq!(SettingsConfig::from(config), settings_config);
}

#[test]
fn settings_config_default_matches_config_default() {
    assert_eq!(Config::from(SettingsConfig::default()), Config::default());
}

#[test]
fn default_config_version_is_one_zero() {
    let settings = SettingsConfig::default();
    assert_eq!(
        settings.internal.config_version,
        ConfigVersion { major: 1, minor: 0 }
    );
    assert_eq!(settings.download_resolution, DownloadResolution::P1080);
    assert_eq!(settings.proxy, None);
}

fn fixture_settings() -> Settings {
    Settings::new(
        SettingsConfig {
            lock_resolution: true,
            only_use_vip: false,
            multi_downloading_segment: 3,
            ua: "Mozilla/5.0 (test)".to_owned(),
            proxy: Some("http://127.0.0.1:7890".to_owned()),
            ads_time: 30,
            ..SettingsConfig::default()
        },
        Cookie::new("foo=bar"),
    )
}

#[test]
fn settings_from_state_reflects_config_and_cookie() {
    let config = Config::from(fixture_settings().config().clone());
    let settings = Settings::from_state(&config, &Cookie::new("session=latest"));
    assert_eq!(settings.cookie().as_str(), "session=latest");
    assert_eq!(Config::from(settings.config().clone()), config);
}

#[test]
fn update_with_unchanged_settings_changes_nothing_but_the_file() {
    let settings = fixture_settings();
    let current = Config::from(settings.config().clone());
    let update = plan_settings_update(&current, &Cookie::new("foo=bar"), settings);
    assert_eq!(update.proxy, None);
    assert_eq!(update.ua, None);
    assert_eq!(update.cookie, None);
    assert_eq!(update.config, current);
}

#[test]
fn update_rebuilds_exactly_the_changed_parts() {
    let current = Config::default();
    let update = plan_settings_update(&current, &Cookie::new("a=b"), fixture_settings());
    assert_eq!(update.proxy, Some(Some("http://127.0.0.1:7890".to_owned())));
    assert_eq!(update.ua, Some("Mozilla/5.0 (test)".to_owned()));
    assert_eq!(update.cookie, Some(Cookie::new("foo=bar")));
    assert_eq!(update.config.ads_time, 30);
}

#[test]
fn update_to_no_proxy_unsets_the_proxy() {
    let current = Config {
        proxy: Some("http://127.0.0.1:1".to_owned()),
        ..Config::default()
    };
    let mut config = SettingsConfig::from(current.clone());
    config.proxy = None;
    let update = plan_settings_update(&current, &Cookie::default(), Settings::new(config, Cookie::default()));
    assert_eq!(update.proxy, Some(None));
    assert_eq!(update.ua, None);
    assert_eq!(update.cookie, None);
}
