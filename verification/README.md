# btrfs-awacs

The verified core of a daemon that watches Btrfs subvolumes by cutting read-only
snapshots of them, comparing neighbouring snapshots, and answering what changed
between any two that are still retained.

- `src/` is the library, verified with Verus:
  - `manifest`, `manifest_v2`, `crc32c`, `streams`: the two formats in which changed
    objects come out of the kernel, and what holds of whole streams.
  - `manager`: the store. Its tables hold watches, grants, operations, snapshots,
    revisions, comparisons and leases; every operation is fenced and
    keeps the store well formed.
  - `service`: the jobs from step to step, up to the next effect on the outside
    world and from its outcome on: initialization, cuts, comparisons of old
    snapshots, collection, worktrees, and the recovery of each.
  - `namespace`, `precision`, `mountinfo`, `inotify`: monitors of a client's view
    and the journal of changes below it.
  - `scan`, `scan_facade`: leased scans of a snapshot.
- `app/` is the daemon around it: descriptors, files, clocks, the database and the
  privileged broker.
- `tests/` runs the library on concrete values.

Three outside functions are trusted: SHA-256 and the draw of random identifiers in
`src/digest.rs`, and the quoting of a text in `src/text.rs`.
