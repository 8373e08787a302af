# cypher

The client-side core of an end-to-end encrypted messenger and file
exchanger, written in Verus. Every function under `src/` carries a contract,
and Verus proves it, with one exception: the thin wrappers marked
`#[verifier::external_body]` (in `src/crypto/primitives.rs`, three `String`
helpers in `src/common/text.rs` and the QR and base64 calls in
`src/desktop.rs`, the `serde_json` parse in `src/client/signaling_json.rs`)
call outside code, and their contracts are trusted, not proved.

Maps kept per peer or per file (session keys, pending transfers) are vectors
of entries with unique keys (`src/common/assoc.rs`) viewed as `Map`s. A
concurrent hash map that is mutated through shared references cannot be given
a contract over its contents' before and after values, so none is used.

## Layout

- `src/common` — identifiers, configuration defaults, the gateway envelope,
  hexadecimal text and small byte utilities.
- `src/crypto` — X3DH key agreement, the Double Ratchet, identity seeds and
  key bundles, and thin trusted wrappers (`primitives.rs`) around the
  audited crates that do the cryptography itself (AES-GCM, HKDF, X25519,
  Ed25519, BIP39, Argon2, zstd, the OS random source).
- `src/client` — the anonymous onion transport (circuit keys, relay request
  and response framing, padding buckets, the transport pool, fetch planning,
  bridge lines), at-rest encryption of messages and ratchet states, the
  passphrase-protected identity file, per-peer session keys, transfer
  bookkeeping, the runtime's handling of what the gateway delivers (signaling
  JSON is parsed by `serde_json` behind a trusted wrapper), and the
  step functions of its tasks (connecting, sending and receiving files).
- `src/desktop.rs` — the desktop client's text helpers, delivery choice,
  event handling and share-link QR codes (trusted wrappers around `qrcode`,
  `image` and `base64`).
- `app/` — what cannot be verified: drivers of the step functions,
  SQLite storage, settings loading,
  logging, metrics, and the floating-point jitter and rate
  limiter.
- `tests/` — executable tests of the library.

The laws of the library (round trips, key agreement, ratchet progress) are
public proof functions next to the code they speak of.
