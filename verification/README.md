# etuf

A client/server protocol over TCP: a version greeting, optional
username/password authorization, an x25519 key exchange, then an
AES-256-GCM protected channel on which the client asks the server either to
serve it directly or to relay it to a target host.

- `src/` is the verified library: the wire formats of every packet and of
  the length-prefixed frames, the cryptographic session (SHA-256 key
  derivation, counter nonces, AES-256-GCM through `aes-gcm`, x25519 through
  `x25519-dalek`), the client's and the server's protocol decisions, and the
  laws that tie them together (encode/decode round trips, decryption of what
  was encrypted, distinct nonces, no client past authorization without
  admitted credentials).
- `app/` drives those decisions over tokio sockets: the asynchronous
  `Packet` interface, framed reads and writes, `Client`, `Server` and
  `Connection`.
- `tests/` exercises the library on concrete values.
