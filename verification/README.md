# honeclaw

The rules of an assistant for investors, verified with Verus: how documents of market data
become events, how a conversation becomes a stream of server-sent events, what a user is
shown of the digest, how the server starts, and which log files are kept.

- `src/` is the verified library. Calls into chrono stand in `src/clock.rs`, each with the
  contract that it is trusted with.
- `app/` is the server around it: requests, files, timers, and the traits by which it
  reaches the other parts of the assistant.
- `tests/` runs the library on concrete values.
