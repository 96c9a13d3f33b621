# iqdb_build

Bulk index construction for the iqdb vector-database spine, verified with Verus.

- `src/` is the verified library: the builder's settings (`builder`:
  `BuildPlan`, generic over the backend's configuration type), shard planning
  (`plan`: the shard count of a parallel build and the contiguous, near-equal
  split of the input), progress
  snapshots (`progress`), the merge fold over the `Mergeable` trait (`merge`),
  and the count a bulk insertion reports (`batch`).
- `app/` holds `IndexBuilder`, `build` and `build_into`: the code that constructs
  backends through the `iqdb_index` traits (calls that the verified crate
  cannot make: they go through an undeclared outside trait and carry `f32`
  vectors) and builds shards on rayon's pool. `IndexBuilder` keeps its settings
  in a `BuildPlan`. It takes the shard count, the shard boundaries, the progress
  snapshots, the merge fold and the inserted count from the library; which shard's error
  the parallel build surfaces is rayon's, and the fresh index built when a merge
  yields nothing is decided there.
- `tests/` exercises the library on concrete values, including a small flat
  index that implements the `iqdb_index` traits and `Mergeable`.
