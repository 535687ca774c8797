# override_cache

Object read caches that let a node dry-run a transaction against overridden
objects, and the request handling of the local IPC endpoint that serves such
dry runs.

- `src/types.rs` — objects, references, input kinds, read results and errors.
- `src/store.rs` — the read interface of the node's object cache
  (`ObjectCacheRead`) and the batch read with precise errors.
- `src/input_loader.rs` — `InputLoaderCache`: overriding objects in front of
  the object cache, and reading a transaction's inputs for signing.
- `src/object_cache.rs` — the execution store interface (`BackingStore`) and
  `ObjectCache`, overriding objects in front of it.
- `src/lookup.rs` — finding the first cache entry that answers a query.
- `src/request.rs` — parsing a request line `{tx_b64};{override_objects_b64}`.
- `src/connection.rs` — the decisions of one IPC connection.
- `src/laws.rs` — properties across reads and of the request format.
- `app/lib.rs` — the socket listener and connection loop (I/O).
