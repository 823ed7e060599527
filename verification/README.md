# marketfeed_daemon

The `marketfeed` market-data daemon's logic as a verified library, with a thin
executable around it.

- `src/` is verified with Verus. Each public function states what it returns or
  changes; the laws that span several calls are public proof functions (`lemma_*`).
  - `queue`, `mailbox`, `sinks`: bounded queues with overflow policies, sink mailboxes,
    fan-out of push outcomes, sink worker planning, health and drain.
  - `config`, `sink_config`, `venue_config`, `validate`, `reload`: the configuration
    model, field parsers, whole-file validation and hot-reload classification.
  - `health`, `metrics`: readiness, liveness and the Prometheus exposition.
  - `http`, `route`: request parsing, bounded reads and the view API's routing.
  - `tape`, `plane`, `view`, `replay`: the view plane's projection (tapes, books,
    derivatives, depth history, status) and replay reads.
  - `dom`: the depth-of-market rows read from a book, its depth samples and the tape.
  - `subscriptions`, `session`, `cli`: subscription expansion, session supervision and
    command-line helpers.
  - `text`, `assoc`: text primitives and association lists.
- The view plane's tables (keyed by venue and instrument, or by names) and the
  readiness map are association lists, `Vec`s of pairs in which the first entry for a
  key counts. With string keys, and keys built from them, Verus proves nothing of what
  std's `HashMap` returns, so these tables are kept in a form whose reads the contracts
  can state exactly.
- `app/` is the executable: TOML loading, sockets, signals, tracing and JSON.
- `tests/` exercises the library.
