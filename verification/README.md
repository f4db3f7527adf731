# shieldpoint

The verified core of the ShieldPoint Soroban contracts.

- `src/` — the library, verified with Verus:
  - `auth`: challenge authentication (contract-bound challenges, single-use
    nonces, Ed25519 signatures, tokens with a fixed lifetime);
  - `proof_verifier`: proof-type dispatch to a BN254 verification backend;
  - `registry`: the proof registry (sequential ids, per-user lists, only the
    registered verifier contract may store);
  - `poseidon`, `bn254`: the hash of up to eight inputs and the Groth16
    request layout;
  - `host`: the trusted boundary to the Soroban host and to `ed25519-dalek`;
  - `bytes`, `keyed`, `address`, `error`: shared helpers and types.
- `app/` — the Soroban contracts around it: storage, ledger reads, events,
  contract errors, and the host's BN254 pairing check.
- `tests/` — tests of the library.
