# MEF-26 (verified core)

A Verus-verified core for 1:1 end-to-end encrypted messaging: an authenticated asynchronous
X25519 prekey handshake, a bounded Double Ratchet state machine, canonical authenticated frames,
encrypted ratchet persistence, opaque delivery envelopes and an ML-KEM-768 primitive adapter.

Layout:

- `src/` — the library, verified by Verus; every public function carries a contract. Calls into the
  RustCrypto, dalek, BLAKE3, `subtle` and `getrandom` crates stand behind small trusted wrappers
  whose contracts are stated in their doc comments.
  - `crypto` — AEAD suites, HKDF and BLAKE3 derivations, randomness, key types.
  - `keys` — X25519 and Ed25519 keys, signed prekeys, identity fingerprints.
  - `frame`, `envelope` — canonical wire formats with round-trip and canonicity proofs.
  - `handshake` — prekey bundles, initiator messages, `initiate` and `accept`, with the proof
    that both sides derive the same session identifier and root secret.
  - `ratchet` — the key schedule, the ratchet state machine with delivery proofs, and
    encrypted snapshots with the proof that a sealed state restores to itself.
  - `pq` — ML-KEM-768 key pairs, encapsulation and decapsulation.
- `tests/` — executable tests of the library.
- `app/` — a copy of the error type with `std::error::Error` support.

Key material is not wiped when the types that hold it (`AeadKey`, `Secret`, `DhSecretKey`,
`MlKem768SharedSecret`) are dropped: the verified library can carry neither a `Drop`
implementation nor a derive from an outside crate. Intermediate plaintext buffers of snapshot
sealing and restoring are wiped explicitly.
