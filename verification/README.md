# uteke_core

The maintenance core of a long-term memory store, verified with Verus.

The library (`src/`) models the store of memories and document chunk vectors, the
vector index with its saved copy, and the recall cache, and proves the operations on
them: consistency check, index rebuild (repair), re-embedding, statistics, aging
status and cleanup, pruning of deprecated memories, the lifecycle cycle, shutdown, the
health report, export and the decisions of an import, and the contradiction-ledger
listing.

Representation choices:

- timestamps are Unix milliseconds (`i64`);
- a vector is the list of the bit patterns of its `f32` components (`Vec<u32>`);
- importance is kept in thousandths, and the deprecation cap of the lifecycle settings in
  hundredths of a percent (`max_deprecate_basis_points`, 100 = 1%).

`app/` holds what stays outside the proofs: JSON (de)serialisation with serde, the
calls to the embedder (its retry policy is `embed_step` in `src/`) and the cosine
near-duplicate check, file-system facts for the health report,
and the command that prints the contradiction ledger.

`src/laws.rs` states the properties that span operations (what repair rebuilds, that a
second repair and a `verify` after repair see the count it reported, the bounds of the
deprecation cap, that aging takes the oldest memories and spares pinned ones, that soft
deletion keeps memories, that pruning spares live memories, that a dry-run prune lists
what a real one deletes and a second prune finds nothing, and that JSON Lines framing
round-trips).
