//! Tempo-mode support pieces: coverage-map bookkeeping, the precompile
//! storage provider's own state, and the fee-token genesis plan.

pub mod coverage;
pub mod genesis;
pub mod primitives;
pub mod storage_provider;
pub mod tempo_cov;
pub mod tx_env;
