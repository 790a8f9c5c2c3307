//! The language-server observatory: canonical inputs in, resource plans,
//! output frames and receipts out, with a naive reconciler beside it.
pub mod types;
pub mod seed;
pub mod language;
pub mod compute;
pub mod ledger;
pub mod invariants;
pub mod bugs;
pub mod actions;
pub mod projection;
pub mod engine;
pub mod core_runtime;
pub mod boundary;
pub mod determinism;
pub mod replay;
pub mod eval;
