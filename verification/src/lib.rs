//! A minimal ledger-resident swap core: converts an input token amount into an
//! output amount at a caller-supplied exchange rate, keeps a per-identity
//! counter of successful swaps in a persistent store, and records one event
//! per conversion.
//!
//! The host-facing plumbing (cryptographic authorization, the host's durable
//! key-value store, the host's event log) is injected by the embedding
//! program; this crate holds the verified state machine and arithmetic.

pub mod contract;
pub mod engine;
pub mod laws;
