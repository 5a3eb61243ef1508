# syntropctl

Administration and diagnostic client for the syntropd AI daemon suite
(sentry, inferenced, modeld, contextd, toold, runtimed, routerd), which
speak Varlink over Unix domain sockets.

Layout:

- `src/` — the verified library:
  - `daemon` — the registry of daemons, name lookup and socket resolution;
  - `varlink` — NUL framing, the exchange of one call as a state machine,
    and the meaning of a reply;
  - `json` — the JSON values carried in calls and replies;
  - `ops` — for each operation, the call it makes and what it takes from
    the reply (devices, drift, incident explanation, generation and
    embeddings, model catalog, tool runs, daemon status);
  - `render` — the plain-text tables and reports;
  - `commands` — decisions of the command-line front end;
  - `text` — character-level helpers;
  - `error` — error conditions.
- `app/` — the executable: argument parsing, sockets, timers, environment
  and file-system access, JSON encoding and decoding, and the renderings
  that involve floating point.
- `tests/` — tests of the library.
