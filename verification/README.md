# revisionstore

Verified bookkeeping for batched fetches from a revision store, and for the
snapshot updates of a commit-cloud workspace.

- `src/attrs.rs`, `src/value.rs`: attribute sets and stored values, as traits
  with spec functions, implemented for files (content and auxiliary data).
- `src/fetch.rs`: the state of one fetch: pending keys, actionable attributes,
  recording found values, and the error report that ends a fetch.
- `src/errors.rs`: fetch errors, per key and otherwise.
- `src/results.rs`: folding the stream of per-key results (all of them, the
  failed keys, or a single value).
- `src/snapshots.rs`: the order of the writes that update workspace snapshots,
  and the step-by-step update that stops at the first failed write.
- `src/laws.rs`: properties that hold across the operations of a fetch.
- `src/outside.rs`: the outside types carried along (`anyhow::Error`,
  `crossbeam::channel::Sender`), the report channel that records what is sent
  on it, and the calls made on them.
- `app/`: iterator-driven result streams, std error traits, and the
  database side of snapshot updates.
