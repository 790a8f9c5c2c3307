//! Release-gate helpers: fake hosts that apply committed resource plans
//! and output frames, and check what they were handed.
pub mod scopes;
pub mod plan;
pub mod resource_ledger;
pub mod output_ledger;
pub mod host_conformance;
