//! The leak duel: event callbacks against reconciliation, under chaos.
pub mod types;
pub mod sim;
pub mod present;
pub mod run;
