# zode

The verified core of a Zode node and its desktop client.

- `src/` — the library, verified with Verus:
  - `ids.rs` — byte-string identifiers and a duplicate-free set of them;
  - `config.rs` — default programs, effective topics, sector limits and
    filter, service registry, and their defaults;
  - `session.rs` — the desktop session state machine (setup, profile
    selection, unlock, reveal, running; tabs; detail panel; keypair
    persistence);
  - `peers.rs` — merging the cached peer addresses into the bootstrap list;
  - `events.rs` — the bounded event log, peer events and service names;
  - `text.rs` — decimal rendering of counters;
  - `resize.rs` — window-edge resize directions and cursors.
- `app/` — the egui/tokio desktop shell: it runs the node, reads and writes
  profiles, settings and the peer cache, renders, and asks the library for
  every decision.
- `tests/` — tests of the library on concrete values.
