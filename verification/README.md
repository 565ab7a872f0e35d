# monstertruck_tracking

Persistent topology tracking for a CAD kernel, with the continuity-contract
bookkeeping built on it, verified with Verus.

- `src/tracking`: validated identifiers, tracking sessions (allocation,
  semantic bindings, lineage, replay generations) and their errors, with the
  laws that span several operations in `tracking/laws.rs`.
- `src/contract.rs`, `src/replay.rs`, `src/execution.rs`: persistent
  continuity contracts, their resolution in a session, batch preparation
  against a registry of current surfaces, and the deterministic dependency
  order in which prepared contracts run.
- `src/capability.rs`, `src/frame.rs`, `src/layout.rs`, `src/resource.rs`:
  the integer side of the continuity solver: what a surface side can carry,
  control-net strips along a boundary, the layout of transition variables,
  work budgets and meters.
- `src/text.rs`, `src/decimal.rs`, `src/content.rs`, `src/messages.rs`:
  identifier text rules, decimal text, the content hash of tracking IDs, and
  the messages of every error.
- `src/decorators.rs`, `src/id.rs`, `src/newton.rs`: geometric decorator
  containers, stable identifiers, the Newton iteration log.
- `app/`: serde forms, thread-local and process-wide meters, address-based
  IDs, error wrappers and the floating-point numerics around the library.
