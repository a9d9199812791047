# load_tester

Verified planning and configuration logic for benchmarking UDP BitTorrent
trackers (aquatic_udp against opentracker).

- `src/` — the library, verified with Verus:
  - `sets` — the benchmark sets keyed by core count, and the selection of
    the sets to run by optional core bounds;
  - `runner` — tracker and load-test processes: their result keys, their
    configuration files and their `taskset` command lines;
  - `tracker` — the trackers compared and their report names;
  - `server` — the threads the tracker starts and their names;
  - `scrape` — assembly of synthetic scrape requests from random draws;
  - `decimal` — decimal notation of integers;
  - `table`, `load_test`, `paths` — the trusted boundary to `indexmap`, the
    load tester's TOML configuration, and filesystem paths.
- `tests/` — tests of the library.
- `app/` — the command-line front end: option parsing, temporary files,
  process spawning, and the aquatic_udp configuration file, whose type
  belongs to the tracker crate itself.
