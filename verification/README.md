# capsule-workspace-core

The decisions of a two-tier blob cache, verified with Verus: a node-local cache directory in front of
a durable backing store.

The library performs no input or output. An operation (`put_block`, `get_block`, `delete_block`,
`has_block` and the same for manifests) is a small state machine: `action` says what to do to a tier
next, the caller does it, and `resume` takes the reply and yields the next step or the result. The
accounts that operations share, `CachedBlobStore`, are needed only while a reply is taken, so operations
may run side by side.

- `src/cache.rs`: when a cache write is skipped and when the cache is swept.
- `src/operation.rs`, `src/put.rs`, `src/get.rs`, `src/delete.rs`, `src/has.rs`: the operations.
- `src/listing.rs`, `src/eviction.rs`: what counts as cached, and which files a sweep removes.
- `src/error.rs`: telling a miss from a failure inside an `anyhow::Error`.
- `src/laws/`: what is proved of whole operations, sweeps and series of reads and writes.
- `app/`: the cache on disk, which carries the decisions out.
