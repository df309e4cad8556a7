# capsuled

The Capsule Node companion daemon: it serves the capsule manifests of an
Obsidian vault to agents, quotes x402 payment terms for them, and holds the
node's identity keyring (an Argon2id + ChaCha20-Poly1305 sealed master
secret from which the node's Ethereum payout address is derived).

## Layout

- `src/` — the verified library (Verus). Every function states its
  behaviour in `requires` / `ensures`. All are proved except the thin
  calls into outside crates and std (in `crypto`, `clock`, `watcher` and
  `text`), whose contracts are trusted; each says in its doc comment what
  it claims of the call.
  - `manifest`, `registry` — capsule ids, manifests, and the in-memory index.
  - `keyring`, `payload`, `wallet` — the on-disk formats, their parsing and
    sealing, and address derivation.
  - `crypto`, `clock` — the calls into the RustCrypto crates and `time`;
    each states what the crate's source shows of the call.
  - `slot`, `autolock`, `api` — the keyring's lifecycle and what the HTTP
    surfaces answer.
  - `watcher` — debouncing of filesystem events on the manifests directory.
  - `bytes`, `text`, `paths`, `order` — helpers the above are built on.
  - `config`, `vault` — configuration defaults, listening addresses, and
    the `.capsule/` permission policy.
- `app/` — the daemon around the library: argument parsing, file I/O,
  memory locking, the HTTP servers and the background tasks.
- `tests/` — tests of the library's public functions.
