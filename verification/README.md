# power_paste

The logic of Power Paste, a desktop clipboard history manager with phone transfer over the
local network, written in Verus and proved against its contracts.

## Layout

- `src/` — the verified library.
  - `history.rs`, `capture.rs`, `models.rs`: the clipboard history (storing captures with
    de-duplication, trimming to the size limit, pins, favourites, edits, search, list order).
  - `monitor.rs`: what the clipboard watcher does with a change (own writes, repeats, sound).
  - `payload.rs`, `formats.rs`, `wide.rs`, `dib.rs`, `native.rs`: what is written to and read
    from the clipboard, format by format (UTF-16 text, HTML, PNG, device-independent bitmaps).
  - `session.rs`, `routes.rs`, `transfer.rs`, `lan.rs`, `page.rs`, `url.rs`, `names.rs`,
    `net.rs`, `imaging.rs`: the phone transfer session, its HTTP routes and answers, uploads,
    file names and the choice of the LAN address.
  - `update.rs`, `versions.rs`: updater states, the steps of a check and of an install, and
    aggregated release notes.
  - `settings.rs`, `digest.rs`, `search.rs`, `text.rs`: settings, hashes, SQL `LIKE`
    matching, text helpers.
- `tests/` — tests of the library on concrete values.
- `app/` — the unverified services around the library: `settings.json`, the SQLite table,
  the HTTP listener, release notes over HTTPS, the copy sound, and window sizes under
  fractional scale factors.
