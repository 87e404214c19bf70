# astro_plan

The decision logic of an astrophotography library manager, verified with
Verus: which plans may be approved, applied or cancelled; how a bounded
Update View plan is built and digested; how an interrupted apply resumes;
how crashed filesystem plans are reconciled at boot; how per-root frame
watchers are attached and detached without leaking an OS watcher; which raw
frames a cleanup may touch; how settings are salvaged; and when a finished
task raises an OS notification.

Layout:

- `src/` — the verified library. Each module states its contracts over
  mathematical models (`Seq`, `Set`, `Map`, spec functions) and proves them.
  Calls into `sha2`, `hex`, `camino`, `uuid` and `time` sit behind small
  trusted wrappers whose contracts say what those crates document.
- `tests/` — executable tests of the library, run against the real crates.
- `app/` — the desktop shell around it: Tauri commands, SQLite access,
  filesystem probes, background tasks, serialisable copies of library types,
  and the floating-point calibration scoring.
