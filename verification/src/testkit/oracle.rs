//! Comparing an incrementally maintained state with a full recompute.
use vstd::prelude::*;
use vstd::std_specs::cmp::PartialEqSpec;

verus! {

/// Application-owned full-recompute oracle for a graph wrapper.
pub trait FullRecomputeOracle<G> {
    /// Canonical application inputs used by full recompute.
    type CanonicalInputs;
    /// Comparable state observed from full recompute and incremental graph state.
    type ExpectedState: PartialEq;

    /// Computes expected state from canonical application truth.
    fn recompute(inputs: &Self::CanonicalInputs) -> Self::ExpectedState;

    /// Observes the equivalent state from the incremental graph or wrapper.
    fn observe_incremental(graph: &G, inputs: &Self::CanonicalInputs) -> Self::ExpectedState;
}

/// Successful oracle comparison.
#[derive(Clone, Debug, PartialEq, Eq)]
pub struct OracleCheck<S> {
    /// State produced by full recompute.
    pub expected: S,
    /// State observed from the incremental graph.
    pub actual: S,
}

/// Full-recompute oracle mismatch.
#[derive(Clone, Debug, PartialEq, Eq)]
pub struct OracleMismatch<S> {
    /// State produced by full recompute.
    pub expected: S,
    /// State observed from the incremental graph.
    pub actual: S,
}

/// Compares the oracle's full recompute of the inputs (the expected
/// state) with its incremental observation of the graph (the actual
/// state): `Ok` with both when they are equal, `Err` with both when they
/// differ.
pub fn assert_incremental_equals_full<G, O: FullRecomputeOracle<G>>(graph: &G, inputs: &O::CanonicalInputs) -> (r:
    Result<OracleCheck<O::ExpectedState>, OracleMismatch<O::ExpectedState>>)
    ensures
        match r {
            Ok(c) => {
                &&& call_ensures(O::recompute, (inputs,), c.expected)
                &&& call_ensures(O::observe_incremental, (graph, inputs), c.actual)
                &&& O::ExpectedState::obeys_eq_spec() ==> c.expected.eq_spec(&c.actual)
            },
            Err(m) => {
                &&& call_ensures(O::recompute, (inputs,), m.expected)
                &&& call_ensures(O::observe_incremental, (graph, inputs), m.actual)
                &&& O::ExpectedState::obeys_eq_spec() ==> !m.expected.eq_spec(&m.actual)
            },
        },
{
    let expected = O::recompute(inputs);
    let actual = O::observe_incremental(graph, inputs);
    if expected == actual {
        Ok(OracleCheck { expected, actual })
    } else {
        Err(OracleMismatch { expected, actual })
    }
}

} // verus!
