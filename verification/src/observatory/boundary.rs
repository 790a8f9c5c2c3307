//! Where the engine meets its callers: checks on states handed in from
//! outside before the engine runs on them.
use vstd::prelude::*;
use crate::dup::Dup;
use crate::observatory::actions::mutate_inputs;
use crate::observatory::compute::{paths_indexable, selected};
use crate::observatory::engine::{app_wf, counts_below_max, counts_bounded, is_transaction, transaction_ready};
use crate::observatory::types::{Action, FileRecord, ResourceLedgerEntry};
use crate::strmap::StrMap;
use crate::observatory::ledger::ledger_keyed;
use crate::observatory::seed::files_consistent;
use crate::observatory::types::{AppState, ResourceLedgerEntryView};

verus! {

/// The entry is filed under `k` and none of its counts exceeds `n`.
pub open spec fn entry_fits(e: ResourceLedgerEntryView, k: Seq<char>, n: nat) -> bool {
    &&& e.key == k
    &&& e.open_count <= n
    &&& e.close_count <= n
    &&& e.cancel_count <= n
}

/// Whether a state is well formed: each file record under its own path,
/// each ledger entry under its own key, and no command count above the
/// number of transactions.
pub fn state_is_well_formed(s: &AppState) -> (b: bool)
    ensures
        b == app_wf(s),
{
    s.inputs.files.lemma_keys();
    let mut i: usize = 0;
    while i < s.inputs.files.len()
        invariant
            i <= s.inputs.files.keys().len(),
            s.inputs.files.keys().len() == s.inputs.files.vals().len(),
            s.inputs.files@.dom() == s.inputs.files.keys().to_set(),
            forall|j: int| 0 <= j < s.inputs.files.keys().len() ==> #[trigger] s.inputs.files@[s.inputs.files.keys()[j]] == s.inputs.files.vals()[j],
            forall|j: int| 0 <= j < i ==> s.inputs.files.vals()[j].path == #[trigger] s.inputs.files.keys()[j],
        decreases s.inputs.files.keys().len() - i,
    {
        if !crate::text::str_eq(s.inputs.files.val_at(i).path.as_str(), s.inputs.files.key_at(i).as_str()) {
            proof {
                let k = s.inputs.files.keys()[i as int];
                assert(s.inputs.files.keys().to_set().contains(k));
            }
            return false;
        }
        i = i + 1;
    }
    proof {
        assert forall|k: Seq<char>| #[trigger] s.inputs.files@.contains_key(k) implies s.inputs.files@[k].path == k by {
            assert(s.inputs.files.keys().to_set().contains(k));
            let j = choose|j: int| 0 <= j < s.inputs.files.keys().len() && s.inputs.files.keys()[j] == k;
        }
    }
    s.resource_ledger.lemma_keys();
    let n = s.traces.len();
    let mut i: usize = 0;
    while i < s.resource_ledger.len()
        invariant
            n == s.traces@.len(),
            i <= s.resource_ledger.keys().len(),
            s.resource_ledger.keys().len() == s.resource_ledger.vals().len(),
            s.resource_ledger@.dom() == s.resource_ledger.keys().to_set(),
            forall|j: int| 0 <= j < s.resource_ledger.keys().len() ==> #[trigger] s.resource_ledger@[s.resource_ledger.keys()[j]] == s.resource_ledger.vals()[j],
            forall|j: int| 0 <= j < i ==> entry_fits(#[trigger] s.resource_ledger.vals()[j], s.resource_ledger.keys()[j], n as nat),
        decreases s.resource_ledger.keys().len() - i,
    {
        let e = s.resource_ledger.val_at(i);
        let ok = crate::text::str_eq(e.key.as_str(), s.resource_ledger.key_at(i).as_str())
            && (e.open_count as usize) <= n && (e.close_count as usize) <= n && (e.cancel_count as usize) <= n;
        if !ok {
            proof {
                let k = s.resource_ledger.keys()[i as int];
                assert(s.resource_ledger.keys().to_set().contains(k));
            }
            return false;
        }
        assert(entry_fits(s.resource_ledger.vals()[i as int], s.resource_ledger.keys()[i as int], n as nat));
        i = i + 1;
    }
    proof {
        assert forall|k: Seq<char>| #[trigger] s.resource_ledger@.contains_key(k) implies s.resource_ledger@[k].key == k
            && s.resource_ledger@[k].open_count <= n && s.resource_ledger@[k].close_count <= n
            && s.resource_ledger@[k].cancel_count <= n by {
            assert(s.resource_ledger.keys().to_set().contains(k));
            let j = choose|j: int| 0 <= j < s.resource_ledger.keys().len() && s.resource_ledger.keys()[j] == k;
            assert(entry_fits(s.resource_ledger.vals()[j], s.resource_ledger.keys()[j], n as nat));
        }
    }
    true
}

/// Whether every count of the ledger can grow by one.
fn counts_fit(ledger: &StrMap<ResourceLedgerEntry>) -> (b: bool)
    ensures
        b == counts_below_max(ledger@),
{
    ledger.lemma_keys();
    let mut i: usize = 0;
    while i < ledger.len()
        invariant
            i <= ledger.keys().len(),
            ledger.keys().len() == ledger.vals().len(),
            ledger@.dom() == ledger.keys().to_set(),
            forall|j: int| 0 <= j < ledger.keys().len() ==> #[trigger] ledger@[ledger.keys()[j]] == ledger.vals()[j],
            forall|j: int| 0 <= j < i ==> entry_fits(#[trigger] ledger.vals()[j], ledger.vals()[j].key, (u32::MAX - 1) as nat),
        decreases ledger.keys().len() - i,
    {
        let e = ledger.val_at(i);
        if e.open_count == u32::MAX || e.close_count == u32::MAX || e.cancel_count == u32::MAX {
            proof {
                let k = ledger.keys()[i as int];
                assert(ledger.keys().to_set().contains(k));
            }
            return false;
        }
        assert(entry_fits(ledger.vals()[i as int], ledger.vals()[i as int].key, (u32::MAX - 1) as nat));
        i = i + 1;
    }
    proof {
        assert forall|k: Seq<char>| #[trigger] ledger@.contains_key(k) implies ledger@[k].open_count <= (u32::MAX - 1) as nat
            && ledger@[k].close_count <= (u32::MAX - 1) as nat && ledger@[k].cancel_count <= (u32::MAX - 1) as nat by {
            assert(ledger.keys().to_set().contains(k));
            let j = choose|j: int| 0 <= j < ledger.keys().len() && ledger.keys()[j] == k;
            assert(entry_fits(ledger.vals()[j], ledger.vals()[j].key, (u32::MAX - 1) as nat));
        }
    }
    true
}

/// Whether every record that takes part in the source graph names a file
/// of the map.
fn paths_fit(files: &StrMap<FileRecord>, generated_enabled: bool) -> (b: bool)
    ensures
        b == paths_indexable(files@, generated_enabled),
{
    files.lemma_keys();
    let mut i: usize = 0;
    while i < files.len()
        invariant
            i <= files.keys().len(),
            files.keys().len() == files.vals().len(),
            files@.dom() == files.keys().to_set(),
            forall|j: int| 0 <= j < files.keys().len() ==> #[trigger] files@[files.keys()[j]] == files.vals()[j],
            forall|j: int|
                0 <= j < i ==> selected(#[trigger] files.vals()[j], generated_enabled) ==> files@.contains_key(
                    files.vals()[j].path,
                ),
        decreases files.keys().len() - i,
    {
        let r = files.val_at(i);
        if (!r.generated || generated_enabled) && !files.contains_key(r.path.as_str()) {
            proof {
                let k = files.keys()[i as int];
                assert(files.keys().to_set().contains(k));
            }
            return false;
        }
        i = i + 1;
    }
    proof {
        assert forall|k: Seq<char>| #[trigger] files@.contains_key(k) && selected(files@[k], generated_enabled) implies files@.contains_key(
            files@[k].path,
        ) by {
            assert(files.keys().to_set().contains(k));
            let j = choose|j: int| 0 <= j < files.keys().len() && files.keys()[j] == k;
            assert(selected(files.vals()[j], generated_enabled));
        }
    }
    true
}

/// Whether the engine can dispatch the action on the state: an action
/// that runs a transaction needs the revision and receipt count to advance,
/// every ledger count to grow, and, after the action, every record that
/// takes part in the source graph to name a file of the map.
pub fn dispatch_ready(state: &AppState, action: &Action) -> (b: bool)
    ensures
        b == (is_transaction(action.deep_view()) ==> transaction_ready(state, action.deep_view())),
{
    let transaction = match action {
        Action::Reset => false,
        Action::SetMode { .. } => false,
        Action::SetBug { .. } => false,
        Action::SelectWhy { .. } => false,
        _ => true,
    };
    if !transaction {
        return true;
    }
    if state.inputs.scenario_revision == u32::MAX || state.traces.len() >= 4294967295usize {
        return false;
    }
    if !counts_fit(&state.resource_ledger) {
        return false;
    }
    let mut probe = state.dup();
    let _ = mutate_inputs(&mut probe, action);
    assert(probe.inputs.files@ == probe.deep_view().inputs.files);
    paths_fit(&probe.inputs.files, probe.inputs.generated_files_enabled)
}

} // verus!
