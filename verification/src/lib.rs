//! Verified core of a self-hosted anime download manager: cookie and header
//! parsing, anime/series assembly, the download book that schedules and tracks
//! episode downloads, the episode cache, settings handling and API error
//! mapping.
pub mod text;
pub mod cookie;
pub mod cover;
pub mod ids;
pub mod config;
pub mod settings;
pub mod ordered_map;
pub mod model;
pub mod resolver;
pub mod channels;
pub mod download;
pub mod stored;
pub mod catalog;
pub mod restore;
pub mod cache;
pub mod api;
pub mod request;
pub mod routes;
