# fingerbrow

The logic of FingerBrow, a local manager of isolated Chrome/Chromium profiles, as a Verus
library: every function in `src/` carries a contract that Verus proves, except the calls into
std, serde_json and chrono in `src/external.rs`, whose contracts are trusted.

- `src/text.rs` — characters, trimming, searching, decimal text and integer parsing.
- `src/normalize.rs`, `src/color.rs` — checking and normalising what users enter.
- `src/profiles.rs` — a profile's or saved proxy's values as a whole, the keychain plans, and
  what is saved of a profile.
- `src/records.rs` — stored rows read back into profiles and proxies.
- `src/launch.rs` — the Chrome command line of a profile.
- `src/sessions.rs` — choosing the browser and testing proxies.
- `src/preferences.rs` — Chrome's `Preferences` document: the name, avatar and theme colour
  written, every other member kept.
- `src/relay.rs`, `src/socks5.rs`, `src/http.rs` — the local relay to authenticated SOCKS5
  proxies: requests from Chrome, the SOCKS5 handshake, HTTP bodies.
- `src/browser.rs`, `src/install.rs` — where browsers and profiles live, and installing Chrome
  for Testing.
- `src/processes.rs`, `src/keychain.rs`, `src/migrations.rs` — the process list, the
  `security` tool, the database schema.
- `src/external.rs` — the calls into std, serde_json and chrono whose contracts are trusted.

`app/` holds the desktop side that Verus does not see: SQLite through rusqlite, files,
processes, sockets and threads, and serde copies of the library's types. Tests are in `tests/`.
