//! Determinism: the engine's transitions are functions of the state's
//! contents, so replaying a state's recorded actions reproduces it.
use vstd::prelude::*;
use crate::observatory::compute::{diff_of, full_recompute_spec, source_files_spec};
use crate::observatory::actions::{mutate_label, mutate_spec};
use crate::observatory::bugs::{accepts_stale, naive_commands};
use crate::observatory::engine::{dispatch_ok, initial_ok, is_transaction, transaction_ok};
use crate::observatory::replay::{observable_spec, replay_result_spec, replays};
use crate::observatory::invariants::invariants_spec;
use crate::observatory::projection::{plan_for, plan_of, workspace_scope};
use crate::observatory::types::{
    ActionView, AppState, AppStateView, CanonicalInputs, CollectionDiffView, FullState, OutputLedger, ResourceCommandView,
    ResourceLedgerEntry, Revision,
};
use crate::strmap::{lemma_ordered_repr, lemma_sorted_unique, sorted, views, StrMap};

verus! {

/// Every ordered map of the state keeps its keys in increasing order.
pub open spec fn maps_ordered(s: &AppState) -> bool {
    &&& sorted(s.inputs.files.keys())
    &&& sorted(s.full.diagnostics_by_file.keys())
    &&& sorted(s.full.links_by_file.keys())
    &&& sorted(s.full.tokens_by_file.keys())
    &&& sorted(s.resource_ledger.keys())
    &&& sorted(s.output_ledger.diagnostics_by_file.keys())
    &&& sorted(s.output_ledger.links_by_file.keys())
    &&& sorted(s.output_ledger.tokens_by_file.keys())
    &&& sorted(s.output_ledger.revisions_by_output_key.keys())
    &&& sorted(s.analysis_revisions.keys())
}

/// Every state the program holds keeps its maps ordered.
pub fn lemma_maps_ordered(s: &AppState)
    ensures
        maps_ordered(s),
{
    s.inputs.files.lemma_keys();
    s.full.diagnostics_by_file.lemma_keys();
    s.full.links_by_file.lemma_keys();
    s.full.tokens_by_file.lemma_keys();
    s.resource_ledger.lemma_keys();
    s.output_ledger.diagnostics_by_file.lemma_keys();
    s.output_ledger.links_by_file.lemma_keys();
    s.output_ledger.tokens_by_file.lemma_keys();
    s.output_ledger.revisions_by_output_key.lemma_keys();
    s.analysis_revisions.lemma_keys();
}

/// A resource plan between two demands is unique.
pub proof fn lemma_plan_unique(
    before: Set<Seq<char>>,
    after: Set<Seq<char>>,
    ws: Seq<char>,
    revision: Revision,
    label: Seq<char>,
    r1: Seq<ResourceCommandView>,
    r2: Seq<ResourceCommandView>,
)
    requires
        plan_of(before, after, ws, revision, label, r1),
        plan_of(before, after, ws, revision, label, r2),
    ensures
        r1 == r2,
{
    let (c1, g1) = choose|came: Seq<Seq<char>>, gone: Seq<Seq<char>>|
        {
            &&& sorted(came)
            &&& came.to_set() == after.difference(before)
            &&& sorted(gone)
            &&& gone.to_set() == before.difference(after)
            &&& r1 == #[trigger] plan_for(came, true, ws, revision, label) + #[trigger] plan_for(
                gone,
                false,
                ws,
                revision,
                label,
            )
        };
    let (c2, g2) = choose|came: Seq<Seq<char>>, gone: Seq<Seq<char>>|
        {
            &&& sorted(came)
            &&& came.to_set() == after.difference(before)
            &&& sorted(gone)
            &&& gone.to_set() == before.difference(after)
            &&& r2 == #[trigger] plan_for(came, true, ws, revision, label) + #[trigger] plan_for(
                gone,
                false,
                ws,
                revision,
                label,
            )
        };
    assert forall|x: Seq<char>| c1.contains(x) <==> c2.contains(x) by {
        assert(c1.to_set().contains(x) == c1.contains(x));
        assert(c2.to_set().contains(x) == c2.contains(x));
    }
    assert forall|x: Seq<char>| g1.contains(x) <==> g2.contains(x) by {
        assert(g1.to_set().contains(x) == g1.contains(x));
        assert(g2.to_set().contains(x) == g2.contains(x));
    }
    lemma_sorted_unique(c1, c2);
    lemma_sorted_unique(g1, g2);
}

/// A structural diff of two versions of a collection is unique.
pub proof fn lemma_diff_unique(
    collection: Seq<char>,
    before: Seq<Seq<char>>,
    after: Seq<Seq<char>>,
    d1: CollectionDiffView,
    d2: CollectionDiffView,
)
    requires
        diff_of(collection, before, after, d1),
        diff_of(collection, before, after, d2),
    ensures
        d1 == d2,
{
    assert forall|x: Seq<char>| d1.added.contains(x) <==> d2.added.contains(x) by {
        assert(d1.added.to_set().contains(x) == d1.added.contains(x));
        assert(d2.added.to_set().contains(x) == d2.added.contains(x));
    }
    assert forall|x: Seq<char>| d1.removed.contains(x) <==> d2.removed.contains(x) by {
        assert(d1.removed.to_set().contains(x) == d1.removed.contains(x));
        assert(d2.removed.to_set().contains(x) == d2.removed.contains(x));
    }
    lemma_sorted_unique(d1.added, d2.added);
    lemma_sorted_unique(d1.removed, d2.removed);
    assert(d1.updated =~= d2.updated);
}

proof fn lemma_views_deep(a: Vec<String>, b: Vec<String>)
    requires
        views(a@) == views(b@),
    ensures
        a.deep_view() == b.deep_view(),
{
    assert(a.deep_view() =~= views(a@));
    assert(b.deep_view() =~= views(b@));
}

/// The full recompute of equal inputs and revisions is equal.
pub proof fn lemma_full_unique(
    i1: &CanonicalInputs,
    v1: &StrMap<u32>,
    f1: &FullState,
    i2: &CanonicalInputs,
    v2: &StrMap<u32>,
    f2: &FullState,
)
    requires
        sorted(i1.files.keys()),
        sorted(i2.files.keys()),
        i1.deep_view() == i2.deep_view(),
        v1@ == v2@,
        full_recompute_spec(i1, v1, f1),
        full_recompute_spec(i2, v2, f2),
    ensures
        f1.deep_view() == f2.deep_view(),
{
    lemma_ordered_repr(i1.files, i2.files);
    assert(i1.files@ == i2.files@);
    assert(i1.generated_files_enabled == i2.generated_files_enabled);
    assert(i1.active_branch@ == i2.active_branch@);
    assert(source_files_spec(&i1.files, i1.generated_files_enabled) == source_files_spec(
        &i2.files,
        i2.generated_files_enabled,
    ));
    lemma_views_deep(f1.source_files, f2.source_files);
    lemma_views_deep(f1.import_edges, f2.import_edges);
    lemma_views_deep(f1.module_graph, f2.module_graph);
    lemma_views_deep(f1.desired_resources, f2.desired_resources);
    assert(f1.links_by_file@ =~= f2.links_by_file@);
    assert(f1.tokens_by_file@ =~= f2.tokens_by_file@);
    assert(f1.diagnostics_by_file@ =~= f2.diagnostics_by_file@);
}

/// The invariant checks of equal ledgers are equal.
pub proof fn lemma_invariants_same(
    full: crate::observatory::types::FullStateView,
    l1: StrMap<ResourceLedgerEntry>,
    o1: OutputLedger,
    l2: StrMap<ResourceLedgerEntry>,
    o2: OutputLedger,
    closed: Seq<Seq<char>>,
    stale: bool,
)
    requires
        sorted(l1.keys()),
        sorted(l2.keys()),
        sorted(o1.diagnostics_by_file.keys()),
        sorted(o2.diagnostics_by_file.keys()),
        sorted(o1.links_by_file.keys()),
        sorted(o2.links_by_file.keys()),
        sorted(o1.tokens_by_file.keys()),
        sorted(o2.tokens_by_file.keys()),
        l1@ == l2@,
        o1.deep_view() == o2.deep_view(),
    ensures
        invariants_spec(full, l1, o1, closed, stale) == invariants_spec(full, l2, o2, closed, stale),
{
    lemma_ordered_repr(l1, l2);
    lemma_ordered_repr(o1.diagnostics_by_file, o2.diagnostics_by_file);
    lemma_ordered_repr(o1.links_by_file, o2.links_by_file);
    lemma_ordered_repr(o1.tokens_by_file, o2.tokens_by_file);
}


/// Two initial states have the same contents.
#[verifier::rlimit(60)]
pub proof fn lemma_initial_unique(r1: &AppState, r2: &AppState)
    requires
        maps_ordered(r1),
        maps_ordered(r2),
        initial_ok(r1),
        initial_ok(r2),
    ensures
        r1.deep_view() == r2.deep_view(),
{
    let v1 = r1.deep_view();
    let v2 = r2.deep_view();
    assert(v1.inputs.host_statuses =~= v2.inputs.host_statuses);
    assert(v1.inputs == v2.inputs);
    assert(v1.analysis_revisions =~= v2.analysis_revisions);
    lemma_full_unique(&r1.inputs, &r1.analysis_revisions, &r1.full, &r2.inputs, &r2.analysis_revisions, &r2.full);
    let t1 = v1.traces[0];
    let t2 = v2.traces[0];
    lemma_diff_unique("sourceFiles"@, Seq::empty(), v1.full.source_files, t1.collection_diffs[0], t2.collection_diffs[0]);
    assert(t1.collection_diffs =~= t2.collection_diffs);
    lemma_plan_unique(
        Set::empty(),
        v1.full.desired_resources.to_set(),
        workspace_scope("main"@),
        1,
        "Open main branch"@,
        t1.resource_commands,
        t2.resource_commands,
    );
    assert(v1.resource_ledger == v2.resource_ledger);
    assert(v1.output_ledger == v2.output_ledger);
    lemma_invariants_same(
        v1.full,
        r1.resource_ledger,
        r1.output_ledger,
        r2.resource_ledger,
        r2.output_ledger,
        Seq::empty(),
        false,
    );
    assert(t1.host_status_events =~= t2.host_status_events);
    assert(t1.invariant_checks == t2.invariant_checks);
    assert(t1.output_frames == t2.output_frames);
    assert(t1.scope_events == t2.scope_events);
    assert(t1 == t2);
    assert(v1.traces =~= v2.traces);
    assert(v1.action_log =~= v2.action_log);
    assert(v1.closed_scopes =~= v2.closed_scopes);
}

/// A transaction from states with the same contents gives states with the
/// same contents.
#[verifier::rlimit(60)]
#[verifier::spinoff_prover]
pub proof fn lemma_transaction_unique(o1: &AppState, o2: &AppState, a: ActionView, r1: &AppState, r2: &AppState)
    requires
        maps_ordered(r1),
        maps_ordered(r2),
        o1.deep_view() == o2.deep_view(),
        transaction_ok(o1, a, r1),
        transaction_ok(o2, a, r2),
    ensures
        r1.deep_view() == r2.deep_view(),
{
    let ov = o1.deep_view();
    let v1 = r1.deep_view();
    let v2 = r2.deep_view();
    let m = mutate_spec(ov, a);
    let label = mutate_label(a);
    let revision = (ov.inputs.scenario_revision + 1) as u32;
    assert(v1.inputs == v2.inputs);
    assert(v1.analysis_revisions == v2.analysis_revisions);
    lemma_full_unique(&r1.inputs, &r1.analysis_revisions, &r1.full, &r2.inputs, &r2.analysis_revisions, &r2.full);
    let t1 = v1.traces.last();
    let t2 = v2.traces.last();
    lemma_diff_unique("sourceFiles"@, ov.full.source_files, v1.full.source_files, t1.collection_diffs[0], t2.collection_diffs[0]);
    lemma_diff_unique("moduleGraph"@, ov.full.module_graph, v1.full.module_graph, t1.collection_diffs[1], t2.collection_diffs[1]);
    lemma_diff_unique("importEdges"@, ov.full.import_edges, v1.full.import_edges, t1.collection_diffs[2], t2.collection_diffs[2]);
    lemma_diff_unique(
        "desiredResources"@,
        ov.full.desired_resources,
        v1.full.desired_resources,
        t1.collection_diffs[3],
        t2.collection_diffs[3],
    );
    assert(t1.collection_diffs =~= t2.collection_diffs);
    let ws = workspace_scope(ov.inputs.active_branch);
    let before = ov.full.desired_resources.to_set();
    let after = v1.full.desired_resources.to_set();
    let p1 = choose|plan: Seq<ResourceCommandView>|
        #[trigger] plan_of(before, after, ws, revision, label, plan) && t1.resource_commands == naive_commands(
            ov.bug_policy,
            ov.mode == "naive"@,
            plan,
        );
    let p2 = choose|plan: Seq<ResourceCommandView>|
        #[trigger] plan_of(before, after, ws, revision, label, plan) && t2.resource_commands == naive_commands(
            ov.bug_policy,
            ov.mode == "naive"@,
            plan,
        );
    lemma_plan_unique(before, after, ws, revision, label, p1, p2);
    assert(t1.resource_commands == t2.resource_commands);
    assert(t1.output_frames == t2.output_frames);
    assert(v1.closed_scopes == v2.closed_scopes);
    assert(v1.resource_ledger == v2.resource_ledger);
    assert(v1.output_ledger == v2.output_ledger);
    lemma_invariants_same(
        v1.full,
        r1.resource_ledger,
        r1.output_ledger,
        r2.resource_ledger,
        r2.output_ledger,
        v1.closed_scopes,
        accepts_stale(ov.bug_policy, ov.mode == "naive"@, a),
    );
    assert(t1.invariant_checks == t2.invariant_checks);
    assert(t1.host_status_events == t2.host_status_events);
    assert(t1.scope_events == t2.scope_events);
    assert(t1 == t2);
    assert(v1.traces =~= v1.traces.drop_last().push(t1));
    assert(v2.traces =~= v2.traces.drop_last().push(t2));
    assert(v1.traces =~= v2.traces);
}

/// A dispatched transaction from states with the same contents gives
/// states with the same contents.
proof fn lemma_step_agrees(o1: &AppState, o2: &AppState, a: ActionView, r1: &AppState, r2: &AppState)
    requires
        is_transaction(a),
        maps_ordered(r1),
        maps_ordered(r2),
        o1.deep_view() == o2.deep_view(),
        dispatch_ok(o1, a, r1),
        dispatch_ok(o2, a, r2),
    ensures
        r1.deep_view() == r2.deep_view(),
{
    lemma_transaction_unique(o1, o2, a, r1, r2);
}

/// Two replays of one log start from states with the same contents.
#[verifier::spinoff_prover]
proof fn lemma_replays_start(state: &AppState, h1: Seq<AppState>, h2: Seq<AppState>)
    requires
        replays(state, h1),
        replays(state, h2),
    ensures
        h1[0].deep_view() == h2[0].deep_view(),
{
    let sv = state.deep_view();
    let i1 = choose|init: AppState|
        #[trigger] initial_ok(&init) && maps_ordered(&init) && h1[0].deep_view() == AppStateView {
            mode: sv.mode,
            bug_policy: sv.bug_policy,
            ..init.deep_view()
        };
    let i2 = choose|init: AppState|
        #[trigger] initial_ok(&init) && maps_ordered(&init) && h2[0].deep_view() == AppStateView {
            mode: sv.mode,
            bug_policy: sv.bug_policy,
            ..init.deep_view()
        };
    lemma_initial_unique(&i1, &i2);
}

/// One step of two replays of one log keeps their states equal.
#[verifier::spinoff_prover]
proof fn lemma_replays_step(state: &AppState, h1: Seq<AppState>, h2: Seq<AppState>, j: int)
    requires
        replays(state, h1),
        replays(state, h2),
        0 <= j < state.deep_view().action_log.len(),
        is_transaction(state.deep_view().action_log[j]),
        maps_ordered(&h1[j + 1]),
        maps_ordered(&h2[j + 1]),
        h1[j].deep_view() == h2[j].deep_view(),
    ensures
        h1[j + 1].deep_view() == h2[j + 1].deep_view(),
{
    let a = state.deep_view().action_log[j];
    assert(dispatch_ok(&h1[j], a, &h1[j + 1]));
    assert(dispatch_ok(&h2[j], a, &h2[j + 1]));
    lemma_step_agrees(&h1[j], &h2[j], a, &h1[j + 1], &h2[j + 1]);
}

/// Two replays of one log, from initial states in the same mode and bug
/// policy, pass through states with the same contents, up to step `k`.
proof fn lemma_replays_agree(state: &AppState, h1: Seq<AppState>, h2: Seq<AppState>, k: int)
    requires
        replays(state, h1),
        replays(state, h2),
        0 <= k <= state.deep_view().action_log.len(),
        forall|i: int| 0 <= i < state.deep_view().action_log.len() ==> is_transaction(
            #[trigger] state.deep_view().action_log[i],
        ),
        forall|i: int| 0 <= i < h1.len() ==> maps_ordered(#[trigger] &h1[i]),
        forall|i: int| 0 <= i < h2.len() ==> maps_ordered(#[trigger] &h2[i]),
    ensures
        forall|i: int| 0 <= i <= k ==> (#[trigger] h1[i]).deep_view() == h2[i].deep_view(),
    decreases k,
{
    if k == 0 {
        lemma_replays_start(state, h1, h2);
    } else {
        lemma_replays_agree(state, h1, h2, k - 1);
        let j = k - 1;
        assert(is_transaction(state.deep_view().action_log[j]));
        assert(maps_ordered(&h1[j + 1]));
        assert(maps_ordered(&h2[j + 1]));
        assert(h1[j].deep_view() == h2[j].deep_view());
        lemma_replays_step(state, h1, h2, j);
    }
}

/// Two states with the same contents, but for the selected explanation
/// and the last replay outcome.
pub open spec fn same_run(a: &AppState, b: &AppState) -> bool {
    AppStateView { selected_why: None, replay_result: None, ..a.deep_view() } == AppStateView {
        selected_why: None,
        replay_result: None,
        ..b.deep_view()
    }
}

/// Replaying the action log of a state that its own log reaches from the
/// initial state, in its mode and bug policy, by transactions alone (up to
/// the selected explanation and the last replay outcome), reproduces the
/// state: every replay check passes and the final observable state
/// matches.
pub proof fn law_replay_reproduces_run(state: &AppState, history: Seq<AppState>, states: Seq<AppState>)
    requires
        replays(state, history),
        same_run(&history.last(), state),
        forall|i: int| 0 <= i < state.deep_view().action_log.len() ==> is_transaction(
            #[trigger] state.deep_view().action_log[i],
        ),
        forall|i: int| 0 <= i < history.len() ==> maps_ordered(#[trigger] &history[i]),
        replays(state, states),
        forall|i: int| 0 <= i < states.len() ==> maps_ordered(#[trigger] &states[i]),
        maps_ordered(state),
    ensures
        replay_result_spec(state, &states.last()).status == "pass"@,
        replay_result_spec(state, &states.last()).final_observable_matches,
{
    let n = states.len() - 1;
    lemma_replays_agree(state, states, history, n);
    let replayed = states[n];
    assert(replayed.deep_view() == history[n].deep_view());
    assert(maps_ordered(&history[n]));
    assert(maps_ordered(&replayed));
    assert(same_run(&replayed, state));
    assert(replayed.deep_view().traces == state.deep_view().traces);
    lemma_ordered_repr(replayed.resource_ledger, history[n].resource_ledger);
    assert(replayed.resource_ledger.vals() == history[n].resource_ledger.vals());
    assert(history[n].resource_ledger@ == state.resource_ledger@);
    lemma_ordered_repr(history[n].resource_ledger, state.resource_ledger);
    assert(observable_spec(&replayed) == observable_spec(state));
    let checks = replay_result_spec(state, &replayed).checks;
    assert(forall|i: int| 0 <= i < checks.len() ==> #[trigger] checks[i].status == "pass"@);
}

} // verus!
