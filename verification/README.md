# ketikin

The core of Ketikin, a desktop utility that types text into whatever window
has focus, one keystroke at a time, for consoles that refuse clipboard paste.
The library is written in Verus: every function carries a contract, and the
properties the application relies on are stated and proved as laws.

## Layout

- `src/` — the verified library.
  - `text` — string helpers over the character view of a string (trimming,
    ASCII case folding, ordering, joining, decimal formatting).
  - `error` — the error type and the sentence each error is shown as.
  - `settings` — defaults, normalization, the start/stop clash rule and its
    repair on load.
  - `storage` — choosing the data directory from probed candidates, the
    notices and banner policy, settling reads of the JSON files, backup
    naming for corrupt files, log file naming and archive pruning.
  - `templates` — creating, updating and deleting named texts.
  - `typing` — text normalization, the one-run-at-a-time engine handle, and
    a typing run as a step-by-step state machine.
  - `hotkeys` — accelerator validation, the rollback policy for rebinding
    the two global shortcuts, and applying new settings to both slots as a
    sequence of OS calls.
  - `updater` — release URLs, version sanitizing, and when a build may update
    itself.
  - `tray`, `icons` — when the window may hide to the tray, what tray clicks
    ask for, and which icon raster serves a display scale.
- `app/` — the desktop side: files on disk, the system keyboard, global
  shortcut registration, and the JSON shapes the interface uses. It performs
  the I/O the library asks for and hands the outcomes back.
- `tests/` — tests of the library on concrete values.
