# mac-cleaner

A macOS storage cleaner with a terminal UI: it measures reclaimable space by
category (caches, logs, developer artifacts, duplicates, iCloud copies, large
files, Trash), lets the user review and select items, and moves them to the
Trash or deletes them.

## Layout

- `src/` — the library, verified with Verus. It holds every decision the
  program makes: the data model and ranking, configuration and path matching,
  what each scanner lists and how, duplicate grouping over BLAKE3 digests, the
  clean plan and its tally, the UI state machine (`app`), layout arithmetic and
  texts of the screen, and the headless report. `laws.rs` states properties
  that span several operations (what selection changes keep, that nothing is
  cleaned without confirmation, that duplicate keepers are the oldest files).
- `app/` — the program around it: command-line parsing, the TOML file, walking
  the disk, reading metadata and file contents, running `df`, `docker`,
  `brctl` and `sudo`, threads and channels, and drawing with `ratatui`.
- `tests/` — tests of the library on concrete values.
