# uhttp

A small HTTP server toolkit whose decisions are verified with Verus.

- `src/` is the verified library: the request and header models, the
  response state machines, route tables and dispatch, the static and
  embedded file servers' decisions (which file, which encoding, which
  entity tag, which answer), the websocket handshake, the head scanner of
  the blocking server, and the TLS key choice. Calls into `path_tree`,
  `percent-encoding`, `mime_guess`, `xxhash-rust`, `flate2`, `brotli`,
  `sha1`, `base64` and `httparse` stand behind small trusted wrappers whose contracts
  say what the library relies on.
- `app/` is the server around it: hyper connections, asynchronous reading
  and writing, TLS, compression streams and websockets. It performs what
  the library decides.
- `tests/` runs the library on concrete values.
