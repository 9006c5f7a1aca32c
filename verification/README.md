# veria

Verified logic of VERIA, a zero-knowledge coprocessor for Solana: five
circuits run in a zkVM, a host that checks and folds their outputs, and an
on-chain program that verifies proofs and records them.

## Layout

- `src/guest/` — the five circuit programs (`scoring`, `aggregation`,
  `median`, `sort`, `ml_inference`) as they run inside the zkVM, with an
  in-guest SHA-256 (`mini_sha256`) proved against the FIPS 180-4 definition,
  and the permutation-witness argument shared by `median` and `sort`.
- `src/host/` — the proving host: input/output schemas, the circuit registry
  and reference implementations, the prover packaging and cross-check, the
  folding accumulator, the decisions of the HTTP bridge, and the laws that
  tie the host's references to the guests.
- `src/onchain/` — the verifier program: errors, hashing helpers, account
  state, the three instruction handlers and their entry points.
- `src/encoding.rs`, `src/stats.rs`, `src/text.rs`, `src/digest.rs` — byte
  encodings, sums and extremes of sequences, decimal and hex rendering, and
  the SHA-256 of the `sha2` crate.
- `tests/` — scenario tests for every module.
- `app/` — the command line, the HTTP server, JSON (de)serialization and the
  Anchor account glue of the on-chain program.

Every function in `src/` is verified by Verus. Calls into `sha2`, `hex` and
`anchor-lang` go through small wrappers: `hex::encode` and `sol_memcmp` have
their results stated, the two SHA-256 calls give results named as functions of
their input bytes, and the texts of outside error types are taken as they come.
The guests hash with their own SHA-256, proved against its definition; the
laws in `src/host/agreement.rs` show that host and guest compute the same
values and commit to the same bytes, each with its own SHA-256.
