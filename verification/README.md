# tap_game

The backend of a Telegram tap game: players tap, taps are counted in Redis,
and background workers flush the dirty scores to ScyllaDB.

- `src/` is the verified library (Verus): number parsing and printing, the
  Telegram init-data check, the circuit breakers, the flush worker's batch
  sizing, back-off and dead-letter retry steps, the request validation and
  answers of the HTTP routes, and the decisions of the repositories.
- `app/` is the server around it: axum routes, the Redis and Scylla clients,
  JWT signing, configuration from the environment and the worker loops. It
  hands plain values to the library and acts on what comes back.
- `tests/` runs the library on concrete values.
