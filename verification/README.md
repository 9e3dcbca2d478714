# cerberus

A watchdog and a command line for Space Station 14 servers. It starts game
servers, restarts them when they die, installs new builds, and answers over HTTP.

The decisions are a library written in [Verus](https://github.com/verus-lang/verus);
its contracts are proved. The program around it does the input and output.

- `src/supervisor/`: one state machine per server. `Supervisor::action` says what
  to do next, `Supervisor::step` takes in what came of it; `laws.rs` holds what is
  true of every course of events. `watchdog.rs` has all supervisors of a daemon
  and reloads their settings.
- `src/updates/`: which build to take from a manifest, whether it arrived whole,
  and in which order it takes the place of the old one.
- `src/utils/rid.rs`: the build that fits a platform, by a search through the
  catalogue of .NET runtime identifiers.
- `src/api/`: who is let in, the routes, the metrics for Prometheus.
- `src/cli/`: which daemon is meant, what is asked of it, how answers are shown.
- `src/logging.rs`, `src/config.rs`, `src/instances.rs`, `src/db/`: settings, log
  filters, processes, rows.
- `src/text.rs`, `src/keymap.rs`, `src/paths.rs`: strings, maps in the order of
  their keys, and paths as steps that `app/` takes by the rules of the platform.
- `app/`: the program: `main`, the daemon, processes, SQLite, HTTP.
- `tests/`: examples.

The daemon reads the runtime catalogue from `assets/utility.json` and the schema
of its database from `migrations/`, both in its working directory.
