# Friends

The backend of a small social planner: people offer each other friendship, plan
events for a single day, keep track of the days that are taken, and collect
places they would like to visit.

## Layout

- `src/` is the library, verified with Verus. Every request is a machine: it asks
  the database one question at a time and decides from each answer what to ask
  next or what to reply.
  - `controllers/` holds the requests, with the contract of every state: what it
    asks, and where each answer leads.
  - `store.rs` says what can be asked of the database and what it answers;
    `entities.rs` what its tables hold; `refusal.rs` how a request is refused.
  - `time.rs` and `text.rs` are dates, points in time and strings. The calendar
    itself is chrono's. `pattern.rs` turns the beginning of a name into a pattern
    for the database.
  - `model.rs` describes, for proofs alone, what a database does with the
    questions. `laws/` states over it what whole requests do: what they leave in
    the tables, when they are refused, that a failure on the way leaves no half
    of them behind, and that the tables stay consistent.
- `tests/` runs requests against a small database in memory.
- `app/` is the server: axum routes, sea-orm tables, and the loop that puts the
  questions of a request to the database.
