# Untitled cache server

An HTTPS server that caches what an HTTP backend serves. The cache is a TLRU cache: it evicts the
least recently used resource when memory runs short, and every resource expires.

- `src/` is the library, verified with Verus: the cache (`cache`, over the map in `store`), the
  backend's URL (`settings`), one request's fetch, wait and answer (`request`), and key material
  (`tls`). `model` describes the cache mathematically, and `laws` proves what holds of it as a
  whole.
- `app/` is the server: arguments, files, sockets, TLS, and the lock and channels through which
  connections share the cache.
- `tests/` runs the library on examples.

The server registers with the tokio console, for which tokio has to be built with
`RUSTFLAGS="--cfg tokio_unstable"`.
