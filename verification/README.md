# pingzilla

The monitoring logic of PingZilla Next, a macOS menu bar latency monitor,
written in Verus and proved against its contracts.

Times are microseconds since the Unix epoch (`i64`) and latencies are whole
microseconds (`u64`), so that every rule — the 24-hour retention, the
five-minute statistics window, alert spacing, percentiles — is integer
arithmetic that Verus checks.

## Layout

- `src/` — the verified library
  - `types.rs` — the data model and its views
  - `text.rs` — trimming, prefixes, decimal rendering and parsing
  - `history.rs` — per-target ping history and its 24-hour retention
  - `network.rs` — fingerprints, change detection, VPN alert policy, flags
  - `sessions.rs` — network sessions and network names
  - `restore.rs` — loading saved data and migrating older formats
  - `stats.rs` — sorting, percentiles, medians, means, statistics
  - `settings.rs` — targets, display modes, intervals, site monitors
  - `sites.rs` — site addresses, site status updates, short URLs
  - `tray.rs` — menu bar icon, title and menu texts
  - `service.rs` — the background service's schedule and alerts
  - `state.rs` — the application state and the steps that change it
  - `laws.rs` — properties that span several calls
- `tests/` — tests of the library on concrete values
- `app/` — the Tauri program around the library: commands, the background
  loop, probes (ICMP, TCP, public-IP lookup, networkQuality), the history
  file, and the JSON forms of the library's types
