//! Helpers for testing reconciliation graphs: conformance levels and
//! reports, model sequences, data scripts and a fake host.
pub mod conformance;
pub mod runner;
pub mod host;
pub mod sequence;
pub mod serialized;
pub mod oracle;
pub mod output_ledger;
