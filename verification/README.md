# magent_store

Durable task memory for coding agents: runs and their checkpoints, the sessions of a
harness, facts and how they supersede each other, background jobs, workspaces, reference
checkouts and proposed changes.

The library is written in Verus. `Store` (`src/tables.rs`) holds the tables; its view,
`StoreModel`, is what the contracts speak of. Every operation that changes the store has

- a spec function that gives the answer and the store after it (`start_step`,
  `remember_step`, `group_step`, ...),
- a method whose name ends in `_at`, which takes identifiers and the time as arguments and
  does exactly that, and
- a method that draws the identifiers and reads the clock itself.

What holds across operations is stated as proof functions named `law_...`: beside the
functions they are about, and in `invariants.rs`, `idempotence.rs`, `memory_laws.rs`,
`curation_laws.rs`, `workspace_laws.rs`, `run_laws.rs` and `session_laws.rs`.

`src/outside.rs` holds the calls into other crates, with what is claimed of each.

`app/` keeps the tables in a SQLite database, runs git and reads the file system. `tests/`
exercises the library from outside.
