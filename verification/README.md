# dp_rest

The request-handling logic of the dev-pulse REST API, written in Verus
and proved against its contracts.

- `src/` is the verified library: query and body validation, the
  overlay rules of partial updates, issue filtering, grouping and
  sorting, tag-link batch planning, executive-summary assembly and
  gating, report parameters, audit targets, and the error mapping the
  routes share. Identifiers and times are plain integers (`u128`,
  microseconds, calendar days numbered from 0001-01-01 as day 1).
  Calls into `uuid`, `chrono`, `chrono-tz` and a few `std` string
  functions go through small trusted wrappers whose contracts name
  what they return.
- `tests/` exercises the library on concrete values.
- `app/` is the axum surface: routes, the serde wire forms (with
  conversions to and from the library's types), and the interfaces to the
  store, GitHub, the reconciler, blob storage and the reporting engine
  that a deployment implements.

Verify with Verus on `src/lib.rs`; the tests and `app/` build with
cargo against the library.
