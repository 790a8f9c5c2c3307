//! Deterministic reconciliation observatory, verified.
use vstd::prelude::*;

pub mod dup;
pub mod duel;
pub mod gate;
pub mod observatory;
pub mod strmap;
pub mod testkit;
pub mod text;

verus! {

} // verus!
