//! The fake host boundary and the classes of host status deliveries.
use vstd::prelude::*;

verus! {

/// Classification for host status delivery.
#[derive(Clone, Copy, Debug, PartialEq, Eq, Structural)]
pub enum HostStatusClass {
    /// Status matches the current resource/scope/revision.
    Current,
    /// Status duplicates the last accepted status revision.
    Duplicate,
    /// Status targets an old command revision.
    Stale,
    /// Status targets a command revision newer than the ledger has observed.
    Future,
    /// Status targets a scope that no longer owns the resource.
    Late,
}

/// Deterministic fake host boundary for resource status simulations.
#[derive(Clone, Debug, PartialEq, Eq, Structural)]
pub struct FakeHost {
    next_status_revision: u64,
}

impl FakeHost {
    /// The revision the next status the host produces will carry.
    pub closed spec fn next_revision_spec(&self) -> u64 {
        self.next_status_revision
    }

    /// Creates a fake host with status revisions starting at one.
    pub fn new() -> (h: Self)
        ensures
            h.next_revision_spec() == 1,
    {
        FakeHost { next_status_revision: 1 }
    }
}

impl Default for FakeHost {
    fn default() -> (h: Self)
        ensures
            h.next_revision_spec() == 1,
    {
        Self::new()
    }
}

} // verus!
