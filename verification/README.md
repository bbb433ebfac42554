# foundry_tempo

Verified pieces of the Tempo-mode support in a local EVM node and its fuzzer:

- `src/coverage.rs` — the coverage map behind the SanitizerCoverage hooks:
  installing and clearing a buffer, recording edge hits, handing out guard ids.
- `src/tempo_cov.rs` — collecting precompile coverage around one call and
  merging it into the call's edge coverage.
- `src/storage_provider.rs` — the precompile storage provider's own state:
  chain facts, saturating gas accounting, transient storage, account-record
  decisions.
- `src/genesis.rs` — the fee-token funding plan that follows genesis set-up.
- `src/tx_env.rs` — the transaction-environment wrapper.
- `src/primitives.rs` — plain-value models of addresses and 256-bit words.

`app/` holds the runtime shell: process-wide hook state and the `extern "C"`
sanitizer callbacks, the per-thread scratch buffer, the database-backed
provider and the outside-trait impls.
