# pg_doorman

The logic of a PostgreSQL connection pooler, verified with Verus.

- `src/pool`: checkouts and checkins, growing and shrinking, limits per
  database, fallback to other members of a cluster, reload of the
  configuration, dynamic pools and their collection.
- `src/server`: login, the messages of a session, prepared statements, session
  parameters, cleanup at checkin.
- `src/web/metrics`: which metrics change when the readings change.
- `src/messages.rs`, `src/wire.rs`, `src/text.rs`, `src/string_map.rs`: the
  ground that the rest stands on.
- `app/`: the tasks, streams and clocks around the library.
- `tests/`: what the library does on given values.

The library does no I/O and waits for nothing. What takes time is written as
steps: a function takes what has happened and says what to do next. Every
function of `src/` has a contract over mathematical models, and what holds
across several functions stands there as a public proof function.

Functions marked `external_body` call the crates `bytes`, `lru`, `rand` and
`xxhash_rust`, or `std`; each says what is relied on.
