//! The application configuration that the settings page edits.
use vstd::prelude::*;

verus! {

/// The video resolution that downloads ask for.
#[derive(Debug, Clone, Copy, PartialEq, Eq)]
pub enum DownloadResolution {
    P360,
    P480,
    P540,
    P720,
    P1080,
}

/// The version of the configuration file's layout.
#[derive(Debug, Clone, Copy, PartialEq, Eq)]
pub struct ConfigVersion {
    pub major: u32,
    pub minor: u32,
}

/// Configuration values that the application keeps for itself.
#[derive(Debug, Clone, Copy, PartialEq, Eq)]
pub struct InternalConfig {
    pub config_version: ConfigVersion,
}

/// The application configuration.
#[derive(Debug, Clone, PartialEq, Eq)]
pub struct Config {
    pub download_resolution: DownloadResolution,
    pub lock_resolution: bool,
    pub only_use_vip: bool,
    pub multi_downloading_segment: usize,
    pub ua: String,
    pub proxy: Option<String>,
    pub ads_time: u32,
    pub internal: InternalConfig,
}

/// The User-Agent that a fresh configuration emulates.
pub const DEFAULT_UA: &'static str = "Mozilla/5.0 (Windows NT 10.0; Win64; x64) AppleWebKit/537.36 (KHTML, like Gecko) Chrome/137.0.0.0 Safari/537.36";

/// The configuration that a fresh installation starts from.
pub open spec fn default_config_spec(c: Config) -> bool {
    &&& c.download_resolution == DownloadResolution::P1080
    &&& !c.lock_resolution
    &&& !c.only_use_vip
    &&& c.multi_downloading_segment == 5
    &&& c.ua@ == DEFAULT_UA@
    &&& c.proxy is None
    &&& c.ads_time == 25
    &&& c.internal == InternalConfig { config_version: ConfigVersion { major: 1, minor: 0 } }
}

impl Default for Config {
    fn default() -> (c: Self)
        ensures
            default_config_spec(c),
    {
        Config {
            download_resolution: DownloadResolution::P1080,
            lock_resolution: false,
            only_use_vip: false,
            multi_downloading_segment: 5,
            ua: String::from_str(DEFAULT_UA),
            proxy: None,
            ads_time: 25,
            internal: InternalConfig { config_version: ConfigVersion { major: 1, minor: 0 } },
        }
    }
}

/// A copy of an optional text.
pub fn copy_opt_string(s: &Option<String>) -> (r: Option<String>)
    ensures
        r == *s,
{
    match s {
        Some(v) => Some(v.clone()),
        None => None,
    }
}

/// Two optional texts are equal.
pub fn opt_string_eq(a: &Option<String>, b: &Option<String>) -> (r: bool)
    ensures
        r == (match (a, b) {
            (Some(x), Some(y)) => x@ == y@,
            (None, None) => true,
            _ => false,
        }),
{
    match (a, b) {
        (Some(x), Some(y)) => *x == *y,
        (None, None) => true,
        _ => false,
    }
}

impl Config {
    /// A field-for-field copy.
    pub fn copy(&self) -> (r: Config)
        ensures
            r == *self,
    {
        Config {
            download_resolution: self.download_resolution,
            lock_resolution: self.lock_resolution,
            only_use_vip: self.only_use_vip,
            multi_downloading_segment: self.multi_downloading_segment,
            ua: self.ua.clone(),
            proxy: copy_opt_string(&self.proxy),
            ads_time: self.ads_time,
            internal: self.internal,
        }
    }
}

} // verus!
