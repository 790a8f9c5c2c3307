# trellis_observatory

A verified library for deterministic reconciliation: canonical inputs go
in, a derived state is recomputed, and each transaction leaves a receipt
that lists the resource commands (open, close, cancel) and output frames
that bring a host in line with the new state. Every public function has a
contract that Verus proves.

## Layout

- `src/observatory/` — the observatory engine: a small language and its
  full recompute, the resource and output ledgers, the invariant checks,
  the seeded naive-reconciler bugs, transactions and receipts, replay, and
  the evaluation capsules. `determinism.rs` proves that a transaction is a
  function of the state's contents, and that replaying a state's
  transactions reproduces it.
- `src/duel/` — a seeded chaos simulation that runs the reconciler and a
  naive counterpart side by side and reports leaks.
- `src/gate/` — release-gate fakes: a resource ledger, an output ledger and
  a host conformance ledger over resource plans and output frames.
- `src/testkit/` — testing helpers: conformance levels, reports and runner,
  model sequences, data-only scripts, a fake host, the full-recompute
  oracle, and an output consumer ledger that keeps frame traces.
- `tests/` — scenario tests and tests of each law on concrete values.
- `app/` — the parts that are not verified: JSON copies of the library's
  types (serde), the wasm exports, and proptest strategies.

## The reconciling graph is a model

The engine's receipts are backed by a reconciling graph runtime. That
runtime is not part of this crate and is not available to it, so
`src/observatory/core_runtime.rs` models what one committed graph
transaction produces: the resource plan between the desired resources
before and after (opens, then closes, each in key order), the output
frames between the outputs before and after, and the audit edges. The
model assumes a fresh graph per call: the bootstrap commits the graph's
first transaction and a transition commits its second, the graph's
revision equals its transaction number, and the phase trace is recorded
by the resource-planning phase (`trellis-core::ProduceResourcePlans`).
Receipts in trellis mode carry these numbers and edges; receipts in naive
mode are not graph-backed.

For the same reason, the helpers that drive the graph itself (a graph
harness, scenario recording, the audit helpers and a ledger whose
classification of host statuses is done by the graph runtime) are not in
this crate; the ledgers in `src/gate/` and `src/testkit/` work on the
library's own plan and frame types.

## Collections

Contracts need to say in which order a collection is walked, since
receipts, reports and dumps list keys in that order. The library's own
collections keep it as part of their invariant:

- `StrMap` and `StrSet` (`src/strmap.rs`) stand for string-keyed ordered
  maps and sets. With string keys, vstd's specifications of the standard
  maps give no usable contents, and none gives the order of a walk; these
  keep their keys strictly increasing, the order in which an ordered map
  walks them.
- `ScopeSet` (`src/gate/scopes.rs`) is a set of numbers kept in increasing
  order, for the same reason: reports list owners in that order. The
  number-keyed map beside it is looked up by key only.

## Preconditions

The engine asks of a state only what a transaction needs: the input
revision and receipt count can advance, every ledger count can grow by
one, and after the action every file record that takes part in the source
graph names a file of the map (`transaction_ready`). A state whose records
or ledger entries are filed under other keys is still served; the
well-formedness the engine keeps (`app_wf`) is carried from state to state
in the contracts. `boundary::dispatch_ready` tests the requirement for
callers outside the verified code.
