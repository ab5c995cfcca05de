# yuukips_launcher

The backend logic of the YuukiPS game launcher as a verified library,
with its behaviour stated in contracts and proved.

- `src/` — the library, checked by Verus:
  - `download.rs`, `download_flow.rs` — the download manager: its table,
    the queue that keeps a limit of simultaneous downloads (oldest queued
    first, newest running sent back first), the activity log, partial
    download records, statistics, restoring saved state.
  - `transfer.rs` — what a single transfer decides between network reads:
    sizes from headers, chunk writes, retries and back-off, outcomes.
  - `proxy.rs` — the interception proxy's configuration, routing and log.
  - `game.rs` — reading process lists, outcomes of stopping processes,
    the monitor that follows a launched game, where installed games are
    looked for, and the guard against closing while a game runs.
  - `patch.rs`, `digest.rs` — patch information addresses, cache names,
    backup paths, checksums (MD5, SHA-256, and MD5 taken in piece by piece
    as a file is read) and reports.
  - `hoyoplay.rs`, `system.rs`, `update.rs` — game tables, Windows tool
    output, clean-up rules, update installers.
  - `utils.rs`, `text.rs` — version strings, file names, sizes, and the
    text operations the rest is built on.
- `app/` — the code around it: global state, files, HTTP transfers,
  processes, threads and the serialized forms of the library's types.
- `tests/` — tests of the library on concrete values.
