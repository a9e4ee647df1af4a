# tracker

The verified core of a small ticket-tracking web service built on axum.

- `src/` is the library, proved with Verus: the in-memory ticket store
  (`model.rs`), credential checking, bearer tokens and JWT signing and
  checking (`auth.rs`), the HTTP replies of errors (`error.rs`), and the
  server's settings (`config.rs`).
- `app/` is the server around it: routes, handlers, the shared store,
  JSON (de)serialization, templates and start-up.
- `tests/` exercises the library with its outside crates linked.
