# mercury-cortex-core

The core library of the Mercury Cortex knowledge engine: project
registration, user profiles, file metadata import and search, database
maintenance (backup, restore, export, reset, migrations) and the runtime's
startup and shutdown.

## Layout

- `src/` — the library, verified with Verus. Every decision the engine makes
  is here as a function with a contract: how a project root is
  canonicalised and a registration reconciled, how `.mcignore` patterns
  match, how a search is scoped, built, filtered, scored and ranked, what a
  circuit breaker and a retry loop do, which migrations are pending, what
  each startup step records. Public proof functions (`lemma_*`) state the
  laws that relate several calls, such as the idempotence of the scaffold
  updates and of migrating, or what a circuit breaker does after repeated
  failures.
- `app/` — ordinary Rust around the library: the SurrealDB connection and
  queries, file system work, async tasks, signal handling, and the
  serialisable copies of the library's types.
- `tests/` — tests of the library on concrete values.

Calls into outside crates that the library makes (record-id parsing,
SHA-256, JSON string lists, lowercasing, clocks) go through small trusted
wrappers whose doc comments say what is claimed of them.
