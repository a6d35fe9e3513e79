# backend

The request-handling logic of the VilaHack event backend, verified with
Verus, and the HTTP server around it.

- `src/` is the verified library: the errors a request can fail with and
  the status each is answered with, reading identifiers from queries,
  authenticating bearer tokens, admitting requests by network, and the
  rules of applications, teams, puzzles, attempts and the scoreboard.
- `app/` is the server: routes, configuration, logging, the database and
  the puzzle files and scripts on disk. It hands the library plain values
  and answers with what the library returns.
- `tests/` runs the library on concrete values.
