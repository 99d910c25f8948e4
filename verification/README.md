# torch_overlay

The log-reading core of Torch Overlay, an always-on-top bar for Torchlight
Infinite that shows the current map run, crystal picked up, and an estimate of
loot value, read live from the game's `UE_game.log`.

The library (`src/`) is written in Verus; every function carries a contract
and is proved against it.

- `text` – character-level string helpers with mathematical specifications
  (`str::lines`, `trim`, `find`, integer parsing and printing).
- `log_lines` – recognisers for single log lines: area levels, level ids, map
  loads, town markers, item changes, exchange price messages.
- `clock` – log timestamps (read through `chrono`) and run durations.
- `offline` – the Korean item and zone name tables.
- `strmap` – a small verified map keyed by strings; `ignored` – the set of
  items excluded from valuation (a `BTreeSet`).
- `tracker` – `LogTracker`, the state machine that turns log lines into runs,
  loot and records for the database; every step is stated as a spec function.
  Each record comes with the state the tracker is to be left in when storing
  it fails, so that a failed write leaves the tracker where it stood when the
  write was due.
- `price` – price-search requests and responses.
- `valuation` – the integer side of valuing loot (crystal, priced, ignored,
  unpriced items; per-item totals; the recent-loot feed).
- `parser` – a one-shot reading of a whole log into crystal runs.
- `game_log` – where to look for the game log (Steam libraries, drive scan).
- `diagnostics` – where the diagnostic log lives and how its lines read.
- `laws` – properties that hold across steps (the session's shape, when loot
  is counted, what a read keeps), proved over the spec functions.

`app/` is the Tauri application around the library: file and database I/O,
the polling loop, JSON tables, floating-point price estimates and the Windows
overlay window.
