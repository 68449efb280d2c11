//! The settings page: the configuration as the page shows it, the cookie, and
//! what saving new settings changes.
use vstd::prelude::*;
use vstd::std_specs::convert::FromSpecImpl;

use crate::config::{
    copy_opt_string, default_config_spec, opt_string_eq, Config, DownloadResolution,
    InternalConfig,
};
use crate::cookie::Cookie;

verus! {

/// The configuration fields that the settings page edits.
#[derive(Debug, Clone, PartialEq, Eq)]
pub struct SettingsConfig {
    pub download_resolution: DownloadResolution,
    pub lock_resolution: bool,
    pub only_use_vip: bool,
    pub multi_downloading_segment: usize,
    pub ua: String,
    pub proxy: Option<String>,
    pub ads_time: u32,
    pub internal: InternalConfig,
}

/// The configuration that settings fields stand for.
pub open spec fn config_of(value: SettingsConfig) -> Config {
    Config {
        download_resolution: value.download_resolution,
        lock_resolution: value.lock_resolution,
        only_use_vip: value.only_use_vip,
        multi_downloading_segment: value.multi_downloading_segment,
        ua: value.ua,
        proxy: value.proxy,
        ads_time: value.ads_time,
        internal: value.internal,
    }
}

/// The settings fields of a configuration.
pub open spec fn settings_config_of(value: Config) -> SettingsConfig {
    SettingsConfig {
        download_resolution: value.download_resolution,
        lock_resolution: value.lock_resolution,
        only_use_vip: value.only_use_vip,
        multi_downloading_segment: value.multi_downloading_segment,
        ua: value.ua,
        proxy: value.proxy,
        ads_time: value.ads_time,
        internal: value.internal,
    }
}

/// Saving the settings page keeps every field where it is: each field of
/// the configuration is the settings field of the same name.
pub proof fn law_config_of_keeps_fields(s: SettingsConfig)
    ensures
        config_of(s).download_resolution == s.download_resolution,
        config_of(s).lock_resolution == s.lock_resolution,
        config_of(s).only_use_vip == s.only_use_vip,
        config_of(s).multi_downloading_segment == s.multi_downloading_segment,
        config_of(s).ua == s.ua,
        config_of(s).proxy == s.proxy,
        config_of(s).ads_time == s.ads_time,
        config_of(s).internal == s.internal,
{
}

/// Showing the configuration on the settings page keeps every field where it
/// is: each settings field is the configuration field of the same name.
pub proof fn law_settings_config_of_keeps_fields(c: Config)
    ensures
        settings_config_of(c).download_resolution == c.download_resolution,
        settings_config_of(c).lock_resolution == c.lock_resolution,
        settings_config_of(c).only_use_vip == c.only_use_vip,
        settings_config_of(c).multi_downloading_segment == c.multi_downloading_segment,
        settings_config_of(c).ua == c.ua,
        settings_config_of(c).proxy == c.proxy,
        settings_config_of(c).ads_time == c.ads_time,
        settings_config_of(c).internal == c.internal,
{
}

impl From<SettingsConfig> for Config {
    /// Each field of the configuration is the settings field of the same name.
    fn from(value: SettingsConfig) -> (r: Self)
        ensures
            r.download_resolution == value.download_resolution,
            r.lock_resolution == value.lock_resolution,
            r.only_use_vip == value.only_use_vip,
            r.multi_downloading_segment == value.multi_downloading_segment,
            r.ua == value.ua,
            r.proxy == value.proxy,
            r.ads_time == value.ads_time,
            r.internal == value.internal,
    {
        Config {
            download_resolution: value.download_resolution,
            lock_resolution: value.lock_resolution,
            only_use_vip: value.only_use_vip,
            multi_downloading_segment: value.multi_downloading_segment,
            ua: value.ua,
            proxy: value.proxy,
            ads_time: value.ads_time,
            internal: value.internal,
        }
    }
}

impl FromSpecImpl<SettingsConfig> for Config {
    open spec fn obeys_from_spec() -> bool {
        true
    }

    open spec fn from_spec(value: SettingsConfig) -> Self {
        config_of(value)
    }
}

impl From<Config> for SettingsConfig {
    /// Each settings field is the configuration field of the same name.
    fn from(value: Config) -> (r: Self)
        ensures
            r.download_resolution == value.download_resolution,
            r.lock_resolution == value.lock_resolution,
            r.only_use_vip == value.only_use_vip,
            r.multi_downloading_segment == value.multi_downloading_segment,
            r.ua == value.ua,
            r.proxy == value.proxy,
            r.ads_time == value.ads_time,
            r.internal == value.internal,
    {
        SettingsConfig {
            download_resolution: value.download_resolution,
            lock_resolution: value.lock_resolution,
            only_use_vip: value.only_use_vip,
            multi_downloading_segment: value.multi_downloading_segment,
            ua: value.ua,
            proxy: value.proxy,
            ads_time: value.ads_time,
            internal: value.internal,
        }
    }
}

impl FromSpecImpl<Config> for SettingsConfig {
    open spec fn obeys_from_spec() -> bool {
        true
    }

    open spec fn from_spec(value: Config) -> Self {
        settings_config_of(value)
    }
}

impl Default for SettingsConfig {
    fn default() -> (s: Self)
        ensures
            default_config_spec(config_of(s)),
    {
        let c: Config = Config::default();
        SettingsConfig::from(c)
    }
}

/// Converting the settings fields into a configuration and back gives the
/// fields unchanged.
pub proof fn law_settings_config_round_trip(s: SettingsConfig)
    ensures
        settings_config_of(
            config_of(s),
        ) == s,
{
}

/// Converting a configuration into settings fields and back gives the
/// configuration unchanged.
pub proof fn law_config_round_trip(c: Config)
    ensures
        config_of(
            settings_config_of(c),
        ) == c,
{
}

/// Everything the settings page shows and saves.
#[derive(Debug, Clone, PartialEq, Eq)]
pub struct Settings {
    config: SettingsConfig,
    cookie: Cookie,
}

impl Settings {
    /// The configuration fields (for contracts).
    pub closed spec fn spec_config(&self) -> SettingsConfig {
        self.config
    }

    /// The cookie (for contracts).
    pub closed spec fn spec_cookie(&self) -> Cookie {
        self.cookie
    }

    /// Settings of the given fields.
    pub fn new(config: SettingsConfig, cookie: Cookie) -> (s: Settings)
        ensures
            s.spec_config() == config,
            s.spec_cookie() == cookie,
    {
        Settings { config, cookie }
    }

    /// The configuration fields.
    pub fn config(&self) -> (c: &SettingsConfig)
        ensures
            *c == self.spec_config(),
    {
        &self.config
    }

    /// The cookie.
    pub fn cookie(&self) -> (c: &Cookie)
        ensures
            *c == self.spec_cookie(),
    {
        &self.cookie
    }

    /// The settings that the page shows for the shared configuration `config`
    /// and the current cookie `cookie`.
    pub fn from_state(config: &Config, cookie: &Cookie) -> (s: Settings)
        ensures
            config_of(s.spec_config()) == *config,
            s.spec_cookie().0@ == cookie.0@,
    {
        let c = config.copy();
        Settings { config: SettingsConfig::from(c), cookie: Cookie::new(cookie.as_str()) }
    }
}

/// What saving new settings changes: the configuration to store and share,
/// and which parts of the request client must be rebuilt.
pub struct SettingsUpdate {
    /// The configuration to write to the configuration file and share.
    pub config: Config,
    /// The proxy to switch the request client to, when it changed.
    pub proxy: Option<Option<String>>,
    /// The User-Agent to emulate from now on, when it changed.
    pub ua: Option<String>,
    /// The cookie to install and write to the cookie file, when it changed.
    pub cookie: Option<Cookie>,
}

/// Two optional proxies are the same.
pub open spec fn same_proxy(a: Option<String>, b: Option<String>) -> bool {
    match (a, b) {
        (Some(x), Some(y)) => x@ == y@,
        (None, None) => true,
        _ => false,
    }
}

/// What saving `settings` changes when the shared configuration is `current`
/// and the current cookie is `current_cookie`: the proxy, the User-Agent and
/// the cookie are each replaced exactly when they differ from the current
/// ones, and the new configuration is stored in any case.
pub fn plan_settings_update(current: &Config, current_cookie: &Cookie, settings: Settings) -> (u:
    SettingsUpdate)
    ensures
        u.config == config_of(settings.spec_config()),
        same_proxy(settings.spec_config().proxy, current.proxy) ==> u.proxy is None,
        !same_proxy(settings.spec_config().proxy, current.proxy) ==> u.proxy == Some(
            settings.spec_config().proxy,
        ),
        settings.spec_config().ua@ == current.ua@ ==> u.ua is None,
        settings.spec_config().ua@ != current.ua@ ==> u.ua is Some && u.ua->0@ == settings.spec_config().ua@,
        settings.spec_cookie().0@ == current_cookie.0@ ==> u.cookie is None,
        settings.spec_cookie().0@ != current_cookie.0@ ==> u.cookie == Some(settings.spec_cookie()),
{
    let Settings { config, cookie } = settings;
    let config: Config = Config::from(config);
    let proxy = if opt_string_eq(&config.proxy, &current.proxy) {
        None
    } else {
        Some(copy_opt_string(&config.proxy))
    };
    let ua = if config.ua == current.ua {
        None
    } else {
        Some(config.ua.clone())
    };
    let cookie = if cookie.0 == current_cookie.0 {
        None
    } else {
        Some(cookie)
    };
    SettingsUpdate { config, proxy, ua, cookie }
}

} // verus!
