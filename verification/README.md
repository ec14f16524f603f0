# subtearium

A lyrics manager for a music library: it scans the library for music files,
keeps the status of each song (no lyrics yet, bad tags, no result, plain
lyrics, synced lyrics, locked), fetches missing lyrics from an online lyrics
service and writes them as `.lrc` files, lets the user lock songs and shift
the timestamps of synced lyrics, and reports on all of it.

## Layout

- `src/` — the library, verified with Verus:
  - `status.rs` — song statuses, their order and the rules that set them;
  - `library.rs` — the library index (path → status, kept in path order) and
    its operations: scan, search result, lock toggle, removal, listings;
  - `stats.rs` — the dashboard's counters and how they follow the library;
  - `lrc.rs`, `text.rs`, `order.rs` — LRC lines (timestamp detection, time
    tags), white space, UTF-8, byte order;
  - `search.rs` — the lyrics request policy (retries, errors) and what a
    search result means for a song;
  - `engine.rs` — the engine state: settings, commands, the scanner claim,
    the engine loop's decisions, the log and toasts;
  - `dashboard.rs`, `scan.rs` — view and scan decisions;
  - `laws.rs` — properties that hold across operations.
- `app/` — the server around it: files, the lyrics service, the engine loop
  and the HTTP API.
- `tests/` — tests of the library on concrete values.
