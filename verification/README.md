# ani_dock

The logic of AniDock, a self-hosted downloader for AniGamer anime, as a Verus
library. Verus proves the code in `src/` against its contracts; most functions
state their result in an `ensures`, and a few small helpers (such as the
field accessors) state only what callers need.

## Layout

- `src/download.rs`, `src/restore.rs`, `src/channels.rs`: the download book. It decides which
  episodes reach the download worker and in what order, which states are
  announced, what a finished download leaves behind, and which unfinished
  downloads are resumed after a restart. It also holds the worker's step and
  cooldown rules. The worker's queue and the event channel keep a record of
  what was sent through them, which only their sending methods change.
- `src/resolver.rs`, `src/model.rs`: assembling an anime from its series.
- `src/catalog.rs`, `src/stored.rs`: the library listing built from the
  database's joined rows, and the stored records.
- `src/cache.rs`: the episode cache, where a newer record wins.
- `src/cover.rs`, `src/routes.rs`, `src/api.rs`: the decisions of the HTTP
  handlers, cover caching with ETags, and API errors.
- `src/settings.rs`, `src/config.rs`, `src/cookie.rs`, `src/request.rs`:
  settings, configuration, the cookie, and request helpers.
- `src/ordered_map.rs`, `src/text.rs`, `src/ids.rs`: the model of `IndexMap`,
  string helpers, and UUID text.
- `tests/`: tests of the library on concrete values.
- `app/`: the server around the library (HTTP, SQLite, files, AniGamer
  requests, the worker loop). Verus does not check it.

Calls into `indexmap`, `rustc-hash`, `tokio` and `uuid` go through small
trusted wrappers, each with a doc comment that says what it assumes.
