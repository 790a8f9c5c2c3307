//! The observatory engine: the initial state, and how each action is
//! dispatched and, for input changes, reconciled in one transaction.
use vstd::prelude::*;
use crate::dup::Dup;
use crate::observatory::compute::{diff_of, diff_vec, file_scope, file_scope_of, input_change};
use crate::observatory::actions::{mutate_inputs, mutate_label, mutate_spec, revisions_for, set_bug, set_bug_spec};
use crate::observatory::bugs::{accepts_stale, apply_naive_bugs, host_events_spec, host_status_events, naive_commands, naive_events, naive_frames};
use crate::observatory::compute::{full_recompute, full_recompute_spec, paths_indexable};
use crate::observatory::invariants::{invariants, invariants_spec};
use crate::observatory::ledger::{
    apply_cmds, apply_frames, apply_output_frames, apply_resource_commands, counts_have_room,
    empty_output_ledger, empty_output_ledger_spec, entry_or_fresh, key_uses, ledger_keyed,
    lemma_apply_cmds_keyed, lemma_counts_after, lemma_key_uses_filter,
};
use crate::observatory::projection::{
    full_wf, is_open, law_frames_reconcile_outputs, law_plan_reconciles_resources, lemma_plan_uses_once,
    output_frames, output_frames_spec, outputs_agree, plan_commands, plan_of, workspace_scope,
};
use crate::observatory::seed::{branch_files_spec, files_consistent, initial_inputs};
use crate::observatory::types::{
    Action, ActionView, AppState, AppStateView, HostStatusEventView, NaiveBugPolicy,
    NaiveBugPolicyView, ResourceCommandView, ResourceLedgerEntry, ResourceLedgerEntryView,
    TransactionTrace, TransactionTraceView, OutputLedger, CanonicalInputs, CanonicalInputsView, ChangedNode, ChangedNodeView, CollectionDiff,
    CollectionDiffView, CompilerConfig, FullState, FullStateView, InputChange, InputChangeView,
    ScopeEvent, ScopeEventView,
};
use crate::observatory::core_runtime::{bootstrap, core_audit_edges_spec, transition, CoreTransition};
use crate::strmap::{sorted, strings_contain, views, StrMap};
use crate::text::{dec, dec_string, join, join_strings, owned, str_eq};

verus! {

// ---------------------------------------------------------------------
// Receipt pieces
// ---------------------------------------------------------------------
/// The derived nodes every transaction reports as recomputed.
pub open spec fn changed_nodes_spec() -> Seq<ChangedNodeView> {
    seq![
        "sourceFiles"@,
        "parsedFiles"@,
        "moduleGraph"@,
        "watcherDemand"@,
        "analysisDemand"@,
        "diagnosticsOutputModel"@,
        "documentLinksOutputModel"@,
        "semanticTokensOutputModel"@,
    ].map_values(|id: Seq<char>| ChangedNodeView { id, summary: "recomputed deterministically"@ })
}

fn changed_node(id: &str) -> (r: ChangedNode)
    ensures
        r.deep_view() == (ChangedNodeView { id: id@, summary: "recomputed deterministically"@ }),
{
    ChangedNode { id: owned(id), summary: owned("recomputed deterministically") }
}

/// The derived nodes a transaction recomputed.
pub fn changed_nodes() -> (r: Vec<ChangedNode>)
    ensures
        r.deep_view() == changed_nodes_spec(),
{
    let r = vec![
        changed_node("sourceFiles"),
        changed_node("parsedFiles"),
        changed_node("moduleGraph"),
        changed_node("watcherDemand"),
        changed_node("analysisDemand"),
        changed_node("diagnosticsOutputModel"),
        changed_node("documentLinksOutputModel"),
        changed_node("semanticTokensOutputModel"),
    ];
    assert(r.deep_view() =~= changed_nodes_spec());
    r
}

/// The dependency edges every receipt lists.
pub open spec fn audit_edges_spec() -> Seq<Seq<char>> {
    seq![
        "files -> sourceFiles"@,
        "sourceFiles -> moduleGraph"@,
        "moduleGraph -> resourcePlan"@,
        "moduleGraph -> outputFrames"@,
        "outputFrames -> outputLedger"@,
        "resourcePlan -> resourceLedger"@,
    ]
}

/// The dependency edges of a receipt.
pub fn audit_edges() -> (r: Vec<String>)
    ensures
        r.deep_view() == audit_edges_spec(),
{
    let r = vec![
        owned("files -> sourceFiles"),
        owned("sourceFiles -> moduleGraph"),
        owned("moduleGraph -> resourcePlan"),
        owned("moduleGraph -> outputFrames"),
        owned("outputFrames -> outputLedger"),
        owned("resourcePlan -> resourceLedger"),
    ];
    assert(r.deep_view() =~= audit_edges_spec());
    r
}

/// The audit edges of a receipt: the dependency edges, followed, for a
/// receipt backed by a graph transaction, by the edges that transaction
/// left.
pub open spec fn receipt_edges_spec(core: Option<Seq<Seq<char>>>) -> Seq<Seq<char>> {
    match core {
        Some(edges) => audit_edges_spec() + edges,
        None => audit_edges_spec(),
    }
}

fn receipt_edges(core: Option<Vec<String>>) -> (r: Vec<String>)
    ensures
        r.deep_view() == receipt_edges_spec(core.deep_view()),
{
    let mut r = audit_edges();
    match core {
        Some(edges) => {
            let ghost start = r.deep_view();
            let mut i: usize = 0;
            while i < edges.len()
                invariant
                    i <= edges@.len(),
                    start == audit_edges_spec(),
                    r.deep_view() == start + edges.deep_view().take(i as int),
                decreases edges.len() - i,
            {
                let ghost before = r.deep_view();
                r.push(edges[i].dup());
                assert(r.deep_view() =~= before.push(edges@[i as int]@));
                assert(edges.deep_view().take(i + 1) =~= edges.deep_view().take(i as int).push(edges@[i as int]@));
                i = i + 1;
            }
            assert(edges.deep_view().take(edges@.len() as int) =~= edges.deep_view());
        },
        None => {},
    }
    r
}

/// The derived state of an empty workspace.
pub open spec fn empty_full_spec() -> FullStateView {
    FullStateView {
        source_files: Seq::empty(),
        import_edges: Seq::empty(),
        diagnostics_by_file: Map::empty(),
        links_by_file: Map::empty(),
        tokens_by_file: Map::empty(),
        desired_resources: Seq::empty(),
        module_graph: Seq::empty(),
    }
}

/// The derived state of an empty workspace.
pub fn empty_full() -> (r: FullState)
    ensures
        r.deep_view() == empty_full_spec(),
{
    let r = FullState {
        source_files: Vec::new(),
        import_edges: Vec::new(),
        diagnostics_by_file: StrMap::new(),
        links_by_file: StrMap::new(),
        tokens_by_file: StrMap::new(),
        desired_resources: Vec::new(),
        module_graph: Vec::new(),
    };
    assert(r.deep_view().source_files =~= Seq::<Seq<char>>::empty());
    assert(r.deep_view().import_edges =~= Seq::<Seq<char>>::empty());
    assert(r.deep_view().desired_resources =~= Seq::<Seq<char>>::empty());
    assert(r.deep_view().module_graph =~= Seq::<Seq<char>>::empty());
    r
}

/// A scope event for a file scope.
pub open spec fn scope_event_spec(op: Seq<char>, path: Seq<char>, reason: Seq<char>) -> ScopeEventView {
    ScopeEventView { op, scope: file_scope(path), reason }
}

/// One scope event per file scope.
pub open spec fn scope_events_for(paths: Seq<Seq<char>>, op: Seq<char>, reason: Seq<char>) -> Seq<ScopeEventView> {
    paths.map_values(|p: Seq<char>| scope_event_spec(op, p, reason))
}

/// The scope events of a source-file diff: the scopes of removed files
/// close, then those of added files open.
pub open spec fn scope_events_spec(d: CollectionDiffView) -> Seq<ScopeEventView> {
    scope_events_for(d.removed, "Close"@, "source file left graph"@) + scope_events_for(
        d.added,
        "Open"@,
        "source file entered graph"@,
    )
}

fn push_scope_events(r: &mut Vec<ScopeEvent>, paths: &Vec<String>, op: &str, reason: &str)
    ensures
        final(r).deep_view() == old(r).deep_view() + scope_events_for(views(paths@), op@, reason@),
{
    let ghost start = r.deep_view();
    let mut i: usize = 0;
    while i < paths.len()
        invariant
            i <= paths@.len(),
            r.deep_view() == start + scope_events_for(views(paths@).take(i as int), op@, reason@),
        decreases paths.len() - i,
    {
        let e = ScopeEvent { op: owned(op), scope: file_scope_of(paths[i].as_str()), reason: owned(reason) };
        let ghost old_r = r.deep_view();
        let ghost ev = e.deep_view();
        r.push(e);
        proof {
            assert(r.deep_view() =~= old_r.push(ev));
            assert(views(paths@).take(i + 1) =~= views(paths@).take(i as int).push(paths@[i as int]@));
            assert(scope_events_for(views(paths@).take(i + 1), op@, reason@) =~= scope_events_for(
                views(paths@).take(i as int),
                op@,
                reason@,
            ).push(ev));
            assert(r.deep_view() =~= start + scope_events_for(views(paths@).take(i + 1), op@, reason@));
        }
        i = i + 1;
    }
    assert(views(paths@).take(paths@.len() as int) =~= views(paths@));
}

/// The scope events of a source-file diff.
pub fn scope_events(diff: &CollectionDiff) -> (r: Vec<ScopeEvent>)
    ensures
        r.deep_view() == scope_events_spec(diff.deep_view()),
{
    let mut r: Vec<ScopeEvent> = Vec::new();
    assert(r.deep_view() =~= Seq::<ScopeEventView>::empty());
    push_scope_events(&mut r, &diff.removed, "Close", "source file left graph");
    push_scope_events(&mut r, &diff.added, "Open", "source file entered graph");
    proof {
        assert(diff.deep_view().removed =~= views(diff.removed@));
        assert(diff.deep_view().added =~= views(diff.added@));
        assert(r.deep_view() =~= scope_events_spec(diff.deep_view()));
    }
    r
}

/// Whether `ds` are the diffs of a transaction between two derived
/// states: source files, module graph, import edges and resource demand.
pub open spec fn collection_diffs_of(before: FullStateView, after: FullStateView, ds: Seq<CollectionDiffView>) -> bool {
    &&& ds.len() == 4
    &&& diff_of("sourceFiles"@, before.source_files, after.source_files, ds[0])
    &&& diff_of("moduleGraph"@, before.module_graph, after.module_graph, ds[1])
    &&& diff_of("importEdges"@, before.import_edges, after.import_edges, ds[2])
    &&& diff_of("desiredResources"@, before.desired_resources, after.desired_resources, ds[3])
}

/// The collection diffs of a transaction.
pub fn collection_diffs(before: &FullState, after: &FullState) -> (r: Vec<CollectionDiff>)
    ensures
        collection_diffs_of(before.deep_view(), after.deep_view(), r.deep_view()),
{
    let r = vec![
        diff_vec("sourceFiles", before.source_files.as_slice(), after.source_files.as_slice()),
        diff_vec("moduleGraph", before.module_graph.as_slice(), after.module_graph.as_slice()),
        diff_vec("importEdges", before.import_edges.as_slice(), after.import_edges.as_slice()),
        diff_vec(
            "desiredResources",
            before.desired_resources.as_slice(),
            after.desired_resources.as_slice(),
        ),
    ];
    proof {
        assert(before.deep_view().source_files =~= views(before.source_files@));
        assert(after.deep_view().source_files =~= views(after.source_files@));
        assert(before.deep_view().module_graph =~= views(before.module_graph@));
        assert(after.deep_view().module_graph =~= views(after.module_graph@));
        assert(before.deep_view().import_edges =~= views(before.import_edges@));
        assert(after.deep_view().import_edges =~= views(after.import_edges@));
        assert(before.deep_view().desired_resources =~= views(before.desired_resources@));
        assert(after.deep_view().desired_resources =~= views(after.desired_resources@));
    }
    r
}

// ---------------------------------------------------------------------
// Input changes
// ---------------------------------------------------------------------
/// How a compiler configuration prints.
pub open spec fn config_name(c: CompilerConfig) -> Seq<char> {
    match c {
        CompilerConfig::Strict => "Strict"@,
        CompilerConfig::Loose => "Loose"@,
    }
}

/// How a flag prints.
pub open spec fn bool_name(b: bool) -> Seq<char> {
    if b {
        "true"@
    } else {
        "false"@
    }
}

/// The input change an action reports: the input it touched, before and
/// after, as text.
pub open spec fn input_changes_spec(
    before: CanonicalInputsView,
    after: CanonicalInputsView,
    a: ActionView,
) -> Seq<InputChangeView> {
    match a {
        ActionView::SwitchBranch { .. } => seq![
            InputChangeView {
                key: "activeBranch"@,
                before: before.active_branch,
                after: after.active_branch,
            },
        ],
        ActionView::ChangeConfig { .. } => seq![
            InputChangeView {
                key: "compilerConfig"@,
                before: config_name(before.compiler_config),
                after: config_name(after.compiler_config),
            },
        ],
        ActionView::ToggleGenerated => seq![
            InputChangeView {
                key: "generatedFilesEnabled"@,
                before: bool_name(before.generated_files_enabled),
                after: bool_name(after.generated_files_enabled),
            },
        ],
        ActionView::InjectStaleAnalysisResult => seq![
            InputChangeView {
                key: "hostStatuses"@,
                before: dec(before.host_statuses.len()),
                after: dec(after.host_statuses.len()),
            },
        ],
        ActionView::CloseAppTab => seq![
            InputChangeView {
                key: "openEditors"@,
                before: join(before.open_editors, ","@),
                after: join(after.open_editors, ","@),
            },
        ],
        _ => seq![
            InputChangeView {
                key: "files"@,
                before: dec(before.files.dom().len()) + " files"@,
                after: dec(after.files.dom().len()) + " files"@,
            },
        ],
    }
}

fn config_string(c: &CompilerConfig) -> (r: String)
    ensures
        r@ == config_name(*c),
{
    match c {
        CompilerConfig::Strict => owned("Strict"),
        CompilerConfig::Loose => owned("Loose"),
    }
}

fn bool_string(b: bool) -> (r: String)
    ensures
        r@ == bool_name(b),
{
    if b {
        owned("true")
    } else {
        owned("false")
    }
}

fn file_count(inputs: &CanonicalInputs) -> (r: String)
    ensures
        r@ == dec(inputs.deep_view().files.dom().len()) + " files"@,
{
    inputs.files.lemma_keys();
    let mut r = dec_string(inputs.files.len() as u64);
    crate::text::append(&mut r, " files");
    r
}

/// The input changes a transaction reports.
pub fn input_changes(before: &CanonicalInputs, after: &CanonicalInputs, action: &Action) -> (r: Vec<
    InputChange,
>)
    ensures
        r.deep_view() == input_changes_spec(before.deep_view(), after.deep_view(), action.deep_view()),
{
    let c = match action {
        Action::SwitchBranch { .. } => input_change(
            "activeBranch",
            before.active_branch.as_str(),
            after.active_branch.as_str(),
        ),
        Action::ChangeConfig { .. } => {
            let b = config_string(&before.compiler_config);
            let a = config_string(&after.compiler_config);
            input_change("compilerConfig", b.as_str(), a.as_str())
        },
        Action::ToggleGenerated => {
            let b = bool_string(before.generated_files_enabled);
            let a = bool_string(after.generated_files_enabled);
            input_change("generatedFilesEnabled", b.as_str(), a.as_str())
        },
        Action::InjectStaleAnalysisResult => {
            let b = dec_string(before.host_statuses.len() as u64);
            let a = dec_string(after.host_statuses.len() as u64);
            input_change("hostStatuses", b.as_str(), a.as_str())
        },
        Action::CloseAppTab => {
            let b = join_strings(before.open_editors.as_slice(), ",");
            let a = join_strings(after.open_editors.as_slice(), ",");
            assert(before.deep_view().open_editors =~= views(before.open_editors@));
            assert(after.deep_view().open_editors =~= views(after.open_editors@));
            input_change("openEditors", b.as_str(), a.as_str())
        },
        _ => {
            let b = file_count(before);
            let a = file_count(after);
            input_change("files", b.as_str(), a.as_str())
        },
    };
    let r = vec![c];
    assert(r.deep_view() =~= input_changes_spec(before.deep_view(), after.deep_view(), action.deep_view()));
    r
}

// ---------------------------------------------------------------------
// State
// ---------------------------------------------------------------------
/// Every command count of the ledger is at most `n`.
pub open spec fn counts_bounded(m: Map<Seq<char>, ResourceLedgerEntryView>, n: nat) -> bool {
    forall|k: Seq<char>|
        #[trigger] m.contains_key(k) ==> m[k].open_count <= n && m[k].close_count <= n
            && m[k].cancel_count <= n
}

/// Every command count of the ledger can grow by one without
/// overflowing.
pub open spec fn counts_below_max(m: Map<Seq<char>, ResourceLedgerEntryView>) -> bool {
    counts_bounded(m, (u32::MAX - 1) as nat)
}

/// Whether an action runs a transaction (rather than resetting the state
/// or changing the mode, a bug switch or the selected explanation).
pub open spec fn is_transaction(a: ActionView) -> bool {
    !(a is Reset || a is SetMode || a is SetBug || a is SelectWhy)
}

/// What a transaction needs of the state it starts from: the revision and
/// the receipt count can advance, every ledger count can grow, and after
/// the action every record that takes part in the source graph names a
/// file of the map.
pub open spec fn transaction_ready(s: &AppState, a: ActionView) -> bool {
    let m = mutate_spec(s.deep_view(), a);
    &&& s.inputs.scenario_revision < u32::MAX
    &&& s.traces@.len() < u32::MAX
    &&& counts_below_max(s.resource_ledger@)
    &&& paths_indexable(m.inputs.files, m.inputs.generated_files_enabled)
}

/// A well-formed state is ready for any transaction that keeps the
/// revision and receipt count within bounds.
pub proof fn lemma_wf_ready(s: &AppState, a: ActionView)
    requires
        app_wf(s),
        s.inputs.scenario_revision < u32::MAX,
        s.traces@.len() < u32::MAX,
    ensures
        transaction_ready(s, a),
{
    crate::observatory::actions::lemma_mutate_consistent(s.deep_view(), a);
    let m = mutate_spec(s.deep_view(), a);
    crate::observatory::compute::lemma_consistent_indexable(m.inputs.files, m.inputs.generated_files_enabled);
}

/// A well-formed application state: each file record is filed under its
/// own path, each ledger entry under its own key, and no command count
/// exceeds the number of transactions.
pub open spec fn app_wf(s: &AppState) -> bool {
    &&& files_consistent(s.inputs.files@)
    &&& counts_bounded(s.resource_ledger@, s.traces@.len())
    &&& ledger_keyed(s.resource_ledger@)
}

/// The file scopes of removed files, added to the closed scopes once each.
pub open spec fn add_closed(closed: Seq<Seq<char>>, removed: Seq<Seq<char>>) -> Seq<Seq<char>>
    decreases removed.len(),
{
    if removed.len() == 0 {
        closed
    } else {
        let c = add_closed(closed, removed.drop_last());
        let scope = file_scope(removed.last());
        if c.contains(scope) {
            c
        } else {
            c.push(scope)
        }
    }
}

fn close_scopes(closed: &mut Vec<String>, removed: &Vec<String>)
    ensures
        views(final(closed)@) == add_closed(views(old(closed)@), views(removed@)),
{
    let ghost c0 = views(closed@);
    let mut i: usize = 0;
    while i < removed.len()
        invariant
            i <= removed@.len(),
            views(closed@) == add_closed(c0, views(removed@).take(i as int)),
        decreases removed.len() - i,
    {
        let scope = file_scope_of(removed[i].as_str());
        proof {
            assert(views(removed@).take(i + 1).drop_last() =~= views(removed@).take(i as int));
            assert(views(removed@).take(i + 1).last() == removed@[i as int]@);
        }
        if !strings_contain(closed.as_slice(), scope.as_str()) {
            let ghost old_c = views(closed@);
            closed.push(scope);
            assert(views(closed@) =~= old_c.push(file_scope(removed@[i as int]@)));
        }
        i = i + 1;
    }
    assert(views(removed@).take(removed@.len() as int) =~= views(removed@));
}

/// The bug switches the observatory starts with.
pub open spec fn initial_policy() -> NaiveBugPolicyView {
    NaiveBugPolicyView {
        skip_clear_diagnostics_for_deleted_file: true,
        skip_document_link_rebaseline: true,
        skip_watcher_close: true,
        accept_stale_analysis_results: true,
        skip_scope_close_output_clear: false,
    }
}

/// The receipt of the bootstrap transaction that opens the main branch.
pub open spec fn bootstrap_trace_ok(
    t: TransactionTraceView,
    full: FullStateView,
    ledger: StrMap<ResourceLedgerEntry>,
    output: OutputLedger,
) -> bool {
    let label = "Open main branch"@;
    &&& t.tx_id == 1 && t.revision == 1
    &&& t.core_backed && t.core_transaction_id == Some(1u64) && t.core_revision == Some(1u64)
    &&& t.label == label
    &&& t.input_changes == seq![
        InputChangeView { key: "activeBranch"@, before: "none"@, after: "main"@ },
    ]
    &&& t.changed_nodes == changed_nodes_spec()
    &&& t.collection_diffs.len() == 1
    &&& diff_of("sourceFiles"@, Seq::empty(), full.source_files, t.collection_diffs[0])
    &&& plan_of(
        Set::empty(),
        full.desired_resources.to_set(),
        workspace_scope("main"@),
        1,
        label,
        t.resource_commands,
    )
    &&& t.output_frames == output_frames_spec(empty_full_spec(), full, 1, label)
    &&& t.scope_events == scope_events_for(full.source_files, "Open"@, "source file entered graph"@)
    &&& t.host_status_events.len() == 0
    &&& t.invariant_checks == invariants_spec(full, ledger, output, Seq::empty(), false)
    &&& t.audit_edges == receipt_edges_spec(Some(core_audit_edges_spec()))
}

/// The initial state: the main branch of the seeded workspace, fully
/// derived, opened by one bootstrap transaction in trellis mode.
pub open spec fn initial_ok(r: &AppState) -> bool {
    let rv = r.deep_view();
    &&& rv.mode == "trellis"@
    &&& rv.bug_policy == initial_policy()
    &&& rv.inputs.active_branch == "main"@
    &&& rv.inputs.files == branch_files_spec("main"@)
    &&& rv.inputs.open_editors == seq!["src/app.tl"@]
    &&& rv.inputs.active_editor == Some("src/app.tl"@)
    &&& rv.inputs.compiler_config == CompilerConfig::Strict
    &&& rv.inputs.generated_files_enabled
    &&& rv.inputs.host_statuses.len() == 0
    &&& rv.inputs.scenario_revision == 1
    &&& rv.analysis_revisions == Map::new(
        |k: Seq<char>| rv.inputs.files.contains_key(k),
        |k: Seq<char>| 1u32,
    )
    &&& full_recompute_spec(&r.inputs, &r.analysis_revisions, &r.full)
    &&& rv.traces.len() == 1
    &&& bootstrap_trace_ok(rv.traces[0], rv.full, r.resource_ledger, r.output_ledger)
    &&& rv.resource_ledger == apply_cmds(Map::empty(), rv.traces[0].resource_commands, 1)
    &&& rv.output_ledger == apply_frames(empty_output_ledger_spec(), rv.traces[0].output_frames)
    &&& rv.action_log.len() == 0
    &&& rv.closed_scopes.len() == 0
    &&& rv.selected_why is None
    &&& rv.replay_result is None
}

/// Commands a well-formed state can apply without a count overflowing.
proof fn lemma_room(m: Map<Seq<char>, ResourceLedgerEntryView>, n: nat, cs: Seq<ResourceCommandView>)
    requires
        counts_bounded(m, n),
        n < u32::MAX,
        forall|k: Seq<char>| #[trigger] key_uses(cs, k) <= 1,
    ensures
        counts_have_room(m, cs),
{
    assert forall|k: Seq<char>| #[trigger] key_uses(cs, k) > 0 implies ({
        let e = entry_or_fresh(m, k);
        &&& e.open_count + key_uses(cs, k) <= u32::MAX
        &&& e.close_count + key_uses(cs, k) <= u32::MAX
        &&& e.cancel_count + key_uses(cs, k) <= u32::MAX
    }) by {
        if m.contains_key(k) {
        }
    }
}

/// After the commands, each count grew by at most one.
proof fn lemma_bounded_after(
    m: Map<Seq<char>, ResourceLedgerEntryView>,
    n: nat,
    cs: Seq<ResourceCommandView>,
    tx: u32,
)
    requires
        counts_bounded(m, n),
        forall|k: Seq<char>| #[trigger] key_uses(cs, k) <= 1,
    ensures
        counts_bounded(apply_cmds(m, cs, tx), n + 1),
{
    assert forall|k: Seq<char>| #[trigger] apply_cmds(m, cs, tx).contains_key(k) implies apply_cmds(
        m,
        cs,
        tx,
    )[k].open_count <= n + 1 && apply_cmds(m, cs, tx)[k].close_count <= n + 1 && apply_cmds(
        m,
        cs,
        tx,
    )[k].cancel_count <= n + 1 by {
        lemma_counts_after(m, cs, tx, k);
        assert(key_uses(cs, k) <= 1);
        if m.contains_key(k) {
        }
    }
}

/// The state the observatory starts in.
pub fn initial_app_state() -> (r: AppState)
    ensures
        initial_ok(&r),
        app_wf(&r),
        reconciled(r.deep_view()),
{
    let inputs = initial_inputs();
    let analysis_revisions = revisions_for(&inputs.files, inputs.scenario_revision);
    assert(files_consistent(inputs.files@)) by {
        crate::observatory::actions::lemma_branch_files_consistent("main"@);
    }
    assert(paths_indexable(inputs.files@, inputs.generated_files_enabled)) by {
        crate::observatory::compute::lemma_consistent_indexable(inputs.files@, inputs.generated_files_enabled);
    }
    crate::observatory::compute::lemma_sources_indexable(&inputs);
    let full = full_recompute(&inputs, &analysis_revisions);
    crate::observatory::compute::lemma_full_wf(&inputs, &analysis_revisions, &full);
    let label = "Open main branch";
    let empty_names: Vec<String> = Vec::new();
    let before_full = empty_full();
    let diff = diff_vec("sourceFiles", empty_names.as_slice(), full.source_files.as_slice());
    let commands = plan_commands(
        empty_names.as_slice(),
        full.desired_resources.as_slice(),
        "WorkspaceScope(main)",
        1,
        label,
    );
    let frames = output_frames(&before_full, &full, 1, label);
    let mut events: Vec<ScopeEvent> = Vec::new();
    assert(events.deep_view() =~= Seq::<ScopeEventView>::empty());
    push_scope_events(&mut events, &full.source_files, "Open", "source file entered graph");
    let mut resource_ledger: StrMap<ResourceLedgerEntry> = StrMap::new();
    let mut output_ledger = empty_output_ledger();
    proof {
        reveal_strlit("main");
        reveal_strlit("WorkspaceScope(main)");
        reveal_strlit("WorkspaceScope(");
        reveal_strlit(")");
        assert(views(empty_names@) =~= Seq::<Seq<char>>::empty());
        assert(views(empty_names@).to_set() =~= Set::<Seq<char>>::empty());
        assert(full.deep_view().desired_resources =~= views(full.desired_resources@));
        assert(full.deep_view().source_files =~= views(full.source_files@));
        assert("WorkspaceScope(main)"@ =~= workspace_scope("main"@));
        assert forall|k: Seq<char>| #[trigger] key_uses(commands.deep_view(), k) <= 1 by {
            lemma_plan_uses_once(
                views(empty_names@).to_set(),
                views(full.desired_resources@).to_set(),
                "WorkspaceScope(main)"@,
                1,
                label@,
                commands.deep_view(),
                k,
            );
        }
        lemma_room(resource_ledger@, 0, commands.deep_view());
        lemma_bounded_after(resource_ledger@, 0, commands.deep_view(), 1);
        lemma_apply_cmds_keyed(resource_ledger@, commands.deep_view(), 1);
    }
    apply_resource_commands(&mut resource_ledger, commands.as_slice(), 1);
    apply_output_frames(&mut output_ledger, frames.as_slice());
    let closed_scopes: Vec<String> = Vec::new();
    let checks = invariants(&full, &resource_ledger, &output_ledger, closed_scopes.as_slice(), false);
    let core = bootstrap(&inputs, &analysis_revisions, &full);
    let trace = TransactionTrace {
        tx_id: 1,
        revision: 1,
        core_backed: true,
        core_transaction_id: Some(core.transaction_id),
        core_revision: Some(core.revision),
        label: owned(label),
        input_changes: vec![input_change("activeBranch", "none", "main")],
        changed_nodes: changed_nodes(),
        collection_diffs: vec![diff],
        resource_commands: commands,
        output_frames: frames,
        scope_events: events,
        host_status_events: Vec::new(),
        invariant_checks: checks,
        audit_edges: receipt_edges(Some(core.audit_edges)),
    };
    let state = AppState {
        mode: owned("trellis"),
        bug_policy: NaiveBugPolicy {
            skip_clear_diagnostics_for_deleted_file: true,
            skip_document_link_rebaseline: true,
            skip_watcher_close: true,
            accept_stale_analysis_results: true,
            skip_scope_close_output_clear: false,
        },
        inputs,
        full,
        resource_ledger,
        output_ledger,
        traces: vec![trace],
        action_log: Vec::new(),
        analysis_revisions,
        closed_scopes,
        selected_why: None,
        replay_result: None,
    };
    proof {
        let rv = state.deep_view();
        assert(rv.traces =~= seq![trace.deep_view()]);
        assert(trace.deep_view().input_changes =~= seq![
            InputChangeView { key: "activeBranch"@, before: "none"@, after: "main"@ },
        ]);
        assert(trace.deep_view().collection_diffs =~= seq![diff.deep_view()]);
        assert(trace.deep_view().host_status_events =~= Seq::<HostStatusEventView>::empty());
        assert(views(state.closed_scopes@) =~= Seq::<Seq<char>>::empty());
        assert(rv.closed_scopes =~= Seq::<Seq<char>>::empty());
        assert(rv.action_log =~= Seq::<ActionView>::empty());
        assert(rv.analysis_revisions =~= Map::new(
            |k: Seq<char>| rv.inputs.files.contains_key(k),
            |k: Seq<char>| 1u32,
        ));
        let e = empty_full_spec();
        assert(e.source_files.no_duplicates());
        assert(outputs_agree(empty_output_ledger_spec(), e));
        law_frames_reconcile_outputs(empty_output_ledger_spec(), e, rv.full, 1, label@);
        law_plan_reconciles_resources(
            Map::empty(),
            Set::empty(),
            rv.full.desired_resources.to_set(),
            workspace_scope("main"@),
            1,
            label@,
            tv_commands(rv),
            1,
        );
        assert forall|k: Seq<char>| #[trigger] is_open(rv.resource_ledger, k) <==> rv.full.desired_resources.contains(k) by {
            assert(rv.full.desired_resources.to_set().contains(k) == rv.full.desired_resources.contains(k));
        }
    }
    state
}

// ---------------------------------------------------------------------
// Transactions
// ---------------------------------------------------------------------
/// The resource commands of a transaction: the plan between the two
/// demands, less what a naive reconciler drops.
pub open spec fn transaction_commands_ok(
    before: FullStateView,
    after: FullStateView,
    ws: Seq<char>,
    revision: u32,
    label: Seq<char>,
    policy: NaiveBugPolicyView,
    naive: bool,
    cs: Seq<ResourceCommandView>,
) -> bool {
    exists|plan: Seq<ResourceCommandView>|
        #[trigger] plan_of(
            before.desired_resources.to_set(),
            after.desired_resources.to_set(),
            ws,
            revision,
            label,
            plan,
        ) && cs == naive_commands(policy, naive, plan)
}

/// One transaction: the action changes the inputs, the revision advances,
/// the derived state is recomputed, and the receipt records the input
/// change, the diffs, the resource plan and output frames (less what a
/// naive reconciler drops, plus what it wrongly publishes), the scope
/// events, the host status events and the invariant checks of the new
/// state; the ledgers apply the commands and frames, and the scopes of
/// removed files are closed.
pub open spec fn transaction_ok(old: &AppState, a: ActionView, r: &AppState) -> bool {
    let ov = old.deep_view();
    let m = mutate_spec(ov, a);
    let label = mutate_label(a);
    let revision = (ov.inputs.scenario_revision + 1) as u32;
    let tx = (ov.traces.len() + 1) as u32;
    let naive = ov.mode == "naive"@;
    let rv = r.deep_view();
    let t = rv.traces.last();
    &&& rv.mode == ov.mode
    &&& rv.bug_policy == ov.bug_policy
    &&& rv.inputs == CanonicalInputsView { scenario_revision: revision, ..m.inputs }
    &&& rv.analysis_revisions == m.analysis_revisions
    &&& full_recompute_spec(&r.inputs, &r.analysis_revisions, &r.full)
    &&& rv.traces.len() == ov.traces.len() + 1
    &&& rv.traces.drop_last() == ov.traces
    &&& rv.action_log == ov.action_log.push(a)
    &&& rv.selected_why == ov.selected_why
    &&& rv.replay_result is None
    &&& t.tx_id == tx
    &&& t.revision == revision
    &&& t.label == label
    &&& t.core_backed == !naive
    &&& t.core_transaction_id == (if naive { None } else { Some(2u64) })
    &&& t.core_revision == (if naive { None } else { Some(2u64) })
    &&& t.input_changes == input_changes_spec(ov.inputs, rv.inputs, a)
    &&& t.changed_nodes == changed_nodes_spec()
    &&& collection_diffs_of(ov.full, rv.full, t.collection_diffs)
    &&& transaction_commands_ok(
        ov.full,
        rv.full,
        workspace_scope(ov.inputs.active_branch),
        revision,
        label,
        ov.bug_policy,
        naive,
        t.resource_commands,
    )
    &&& t.output_frames == naive_frames(
        ov.bug_policy,
        naive,
        a,
        revision,
        output_frames_spec(ov.full, rv.full, revision, label),
    )
    &&& t.scope_events == scope_events_spec(t.collection_diffs[0])
    &&& t.host_status_events == naive_events(
        ov.bug_policy,
        naive,
        a,
        host_events_spec(m.inputs.host_statuses, m.analysis_revisions, a, revision),
    )
    &&& rv.closed_scopes == add_closed(m.closed_scopes, t.collection_diffs[0].removed)
    &&& rv.resource_ledger == apply_cmds(ov.resource_ledger, t.resource_commands, tx)
    &&& rv.output_ledger == apply_frames(ov.output_ledger, t.output_frames)
    &&& t.invariant_checks == invariants_spec(
        rv.full,
        r.resource_ledger,
        r.output_ledger,
        rv.closed_scopes,
        accepts_stale(ov.bug_policy, naive, a),
    )
    &&& t.audit_edges == receipt_edges_spec(if naive { None } else { Some(core_audit_edges_spec()) })
}

fn workspace_scope_of(branch: &str) -> (r: String)
    ensures
        r@ == workspace_scope(branch@),
{
    let mut r = owned("WorkspaceScope(");
    crate::text::append(&mut r, branch);
    crate::text::append(&mut r, ")");
    r
}

#[verifier::spinoff_prover]
#[verifier::rlimit(60)]
fn apply_transaction(state: AppState, action: Action) -> (r: AppState)
    requires
        transaction_ready(&state, action.deep_view()),
    ensures
        transaction_ok(&state, action.deep_view(), &r),
        app_wf(&state) ==> app_wf(&r),
        files_consistent(state.inputs.files@) ==> full_wf(r.deep_view().full),
{
    let ghost os = state;
    let ghost ov = state.deep_view();
    let mut state = state;
    let ws = workspace_scope_of(state.inputs.active_branch.as_str());
    let before_inputs = state.inputs.dup();
    let before_full = state.full.dup();
    let before_analysis = state.analysis_revisions.dup();
    let naive = str_eq(state.mode.as_str(), "naive");
    let label = mutate_inputs(&mut state, &action);
    let ghost m = state.deep_view();
    let ghost mc = views(state.closed_scopes@);
    assert(state.traces@.len() == state.deep_view().traces.len());
    assert(state.inputs.host_statuses@.len() == m.inputs.host_statuses.len());
    state.inputs.scenario_revision = state.inputs.scenario_revision + 1;
    let revision = state.inputs.scenario_revision;
    let tx_id = state.traces.len() as u32 + 1;
    crate::observatory::compute::lemma_sources_indexable(&state.inputs);
    let after_full = full_recompute(&state.inputs, &state.analysis_revisions);
    let core = if naive {
        None
    } else {
        Some(
            transition(
                CoreTransition {
                    before_inputs: &before_inputs,
                    before_analysis: &before_analysis,
                    before_full: &before_full,
                    after_inputs: &state.inputs,
                    after_analysis: &state.analysis_revisions,
                    after_full: &after_full,
                    app_revision: revision,
                    label: label.as_str(),
                },
            ),
        )
    };
    let (core_transaction_id, core_revision, core_edges) = match core {
        Some(p) => (Some(p.transaction_id), Some(p.revision), Some(p.audit_edges)),
        None => (None, None, None),
    };
    let mut commands = plan_commands(
        before_full.desired_resources.as_slice(),
        after_full.desired_resources.as_slice(),
        ws.as_str(),
        revision,
        label.as_str(),
    );
    let ghost plan = commands.deep_view();
    let mut frames = output_frames(&before_full, &after_full, revision, label.as_str());
    let mut host_events = host_status_events(&state, &action, revision);
    let stale_mutated = apply_naive_bugs(&mut commands, &mut frames, &state, &action, &mut host_events);
    let diffs = collection_diffs(&before_full, &after_full);
    let ghost diffs_removed = diffs@[0].removed@;
    close_scopes(&mut state.closed_scopes, &diffs[0].removed);
    let events = scope_events(&diffs[0]);
    proof {
        let bd = views(before_full.desired_resources@);
        let ad = views(after_full.desired_resources@);
        assert(before_full.deep_view().desired_resources =~= bd);
        assert(after_full.deep_view().desired_resources =~= ad);
        assert forall|k: Seq<char>| #[trigger] key_uses(commands.deep_view(), k) <= 1 by {
            lemma_plan_uses_once(bd.to_set(), ad.to_set(), ws@, revision, label@, plan, k);
            if ov.mode == "naive"@ && ov.bug_policy.skip_watcher_close {
                lemma_key_uses_filter(
                    plan,
                    |c: ResourceCommandView| !crate::observatory::bugs::closes_watcher(c),
                    k,
                );
            }
        }
        lemma_room(state.resource_ledger@, (u32::MAX - 1) as nat, commands.deep_view());
        if counts_bounded(state.resource_ledger@, state.traces@.len() as nat) {
            lemma_bounded_after(
                state.resource_ledger@,
                state.traces@.len() as nat,
                commands.deep_view(),
                tx_id,
            );
        }
        if ledger_keyed(state.resource_ledger@) {
            lemma_apply_cmds_keyed(state.resource_ledger@, commands.deep_view(), tx_id);
        }
    }
    apply_resource_commands(&mut state.resource_ledger, commands.as_slice(), tx_id);
    apply_output_frames(&mut state.output_ledger, frames.as_slice());
    state.full = after_full;
    crate::observatory::compute::lemma_full_wf(&state.inputs, &state.analysis_revisions, &state.full);
    let changes = input_changes(&before_inputs, &state.inputs, &action);
    let checks = invariants(
        &state.full,
        &state.resource_ledger,
        &state.output_ledger,
        state.closed_scopes.as_slice(),
        stale_mutated,
    );
    let trace = TransactionTrace {
        tx_id,
        revision,
        core_backed: !naive,
        core_transaction_id,
        core_revision,
        label,
        input_changes: changes,
        changed_nodes: changed_nodes(),
        collection_diffs: diffs,
        resource_commands: commands,
        output_frames: frames,
        scope_events: events,
        host_status_events: host_events,
        invariant_checks: checks,
        audit_edges: receipt_edges(core_edges),
    };
    let ghost tv = trace.deep_view();
    let ghost old_traces = state.traces.deep_view();
    let ghost old_log = state.action_log.deep_view();
    let ghost av = action.deep_view();
    state.traces.push(trace);
    state.action_log.push(action);
    state.replay_result = None;
    proof {
        let rv = state.deep_view();
        assert(rv.traces =~= old_traces.push(tv));
        assert(rv.traces.drop_last() =~= ov.traces);
        assert(rv.action_log =~= old_log.push(av));
        assert(views(state.closed_scopes@) =~= rv.closed_scopes);
        assert(views(os.closed_scopes@) =~= ov.closed_scopes);
        assert(m.closed_scopes =~= mc);
        assert(tv.collection_diffs[0].removed =~= views(diffs_removed));
        assert(transaction_commands_ok(
            ov.full,
            rv.full,
            workspace_scope(ov.inputs.active_branch),
            revision,
            label@,
            ov.bug_policy,
            ov.mode == "naive"@,
            tv.resource_commands,
        ));
    }
    state
}

/// What dispatching an action does: `Reset` starts over, `SetMode`,
/// `SetBug` and `SelectWhy` change only what they name (a mode change
/// also drops the last replay), and every other action runs one
/// transaction.
pub open spec fn dispatch_ok(old: &AppState, a: ActionView, r: &AppState) -> bool {
    let ov = old.deep_view();
    let rv = r.deep_view();
    match a {
        ActionView::Reset => initial_ok(r),
        ActionView::SetMode { mode } => rv == AppStateView { mode, replay_result: None, ..ov },
        ActionView::SetBug { key, value } => rv == AppStateView {
            bug_policy: set_bug_spec(ov.bug_policy, key, value),
            ..ov
        },
        ActionView::SelectWhy { id } => rv == AppStateView { selected_why: id, ..ov },
        _ => transaction_ok(old, a, r),
    }
}

/// Applies one user action to the state.
pub fn dispatch_action(state: AppState, action: Action) -> (r: AppState)
    requires
        is_transaction(action.deep_view()) ==> transaction_ready(&state, action.deep_view()),
    ensures
        dispatch_ok(&state, action.deep_view(), &r),
        app_wf(&state) ==> app_wf(&r),
        app_wf(&state) && reconciled(state.deep_view()) && state.deep_view().mode != "naive"@ ==> reconciled(
            r.deep_view(),
        ),
{
    match action {
        Action::Reset => initial_app_state(),
        Action::SetMode { mode } => {
            let mut state = state;
            state.mode = mode;
            state.replay_result = None;
            state
        },
        Action::SetBug { key, value } => {
            let mut state = state;
            set_bug(&mut state.bug_policy, key.as_str(), value);
            state
        },
        Action::SelectWhy { id } => {
            let mut state = state;
            state.selected_why = id;
            state
        },
        other => {
            let ghost os = state;
            let ghost av = other.deep_view();
            let r = apply_transaction(state, other);
            proof {
                if app_wf(&os) && reconciled(os.deep_view()) && os.deep_view().mode != "naive"@ {
                    law_transaction_keeps_reconciled(&os, av, &r);
                }
            }
            r
        },
    }
}

// ---------------------------------------------------------------------
// Reconciliation
// ---------------------------------------------------------------------
/// The receipt's resource commands of the first trace.
pub open spec fn tv_commands(s: AppStateView) -> Seq<ResourceCommandView> {
    s.traces[0].resource_commands
}

/// A reconciled state agrees with its derivation: the derived state is
/// well formed, the consumer holds exactly its outputs, and exactly its
/// resource demand is open.
pub open spec fn reconciled(s: AppStateView) -> bool {
    &&& full_wf(s.full)
    &&& outputs_agree(s.output_ledger, s.full)
    &&& forall|k: Seq<char>|
        #[trigger] is_open(s.resource_ledger, k) <==> s.full.desired_resources.contains(k)
}

/// Outside naive mode, a transaction from a reconciled state leaves a
/// receipt whose checks all pass but, possibly, the closed-scope one: no
/// outputs, watchers or analysis jobs remain for removed files, no stale
/// result was accepted, and the consumer equals the full recompute.
pub proof fn law_trellis_receipts_pass_checks(old: &AppState, a: ActionView, r: &AppState)
    requires
        transaction_ok(old, a, r),
        reconciled(old.deep_view()),
        old.deep_view().mode != "naive"@,
        app_wf(r),
        full_wf(r.deep_view().full),
        sorted(r.resource_ledger.keys()),
        sorted(r.output_ledger.diagnostics_by_file.keys()),
        sorted(r.output_ledger.links_by_file.keys()),
        sorted(r.output_ledger.tokens_by_file.keys()),
    ensures
        r.deep_view().traces.last().invariant_checks.len() == 10,
        forall|i: int|
            0 <= i < 10 && i != 6 ==> #[trigger] r.deep_view().traces.last().invariant_checks[i].status == "pass"@,
{
    law_transaction_keeps_reconciled(old, a, r);
    let rv = r.deep_view();
    crate::observatory::invariants::law_reconciled_state_passes_checks(
        rv.full,
        r.resource_ledger,
        r.output_ledger,
        rv.closed_scopes,
    );
}

/// Outside naive mode a transaction keeps a reconciled state reconciled:
/// the consumer ends up with exactly the outputs of the new full recompute
/// and the ledger with exactly its resource demand open.
pub proof fn law_transaction_keeps_reconciled(old: &AppState, a: ActionView, r: &AppState)
    requires
        transaction_ok(old, a, r),
        reconciled(old.deep_view()),
        old.deep_view().mode != "naive"@,
        full_wf(r.deep_view().full),
    ensures
        reconciled(r.deep_view()),
{
    let ov = old.deep_view();
    let rv = r.deep_view();
    let label = mutate_label(a);
    let revision = (ov.inputs.scenario_revision + 1) as u32;
    let tx = (ov.traces.len() + 1) as u32;
    let t = rv.traces.last();
    law_frames_reconcile_outputs(ov.output_ledger, ov.full, rv.full, revision, label);
    let ws = workspace_scope(ov.inputs.active_branch);
    let plan = choose|plan: Seq<ResourceCommandView>|
        #[trigger] plan_of(
            ov.full.desired_resources.to_set(),
            rv.full.desired_resources.to_set(),
            ws,
            revision,
            label,
            plan,
        ) && t.resource_commands == naive_commands(ov.bug_policy, false, plan);
    assert forall|k: Seq<char>| #[trigger] is_open(ov.resource_ledger, k) <==> ov.full.desired_resources.to_set().contains(k) by {
        assert(ov.full.desired_resources.to_set().contains(k) == ov.full.desired_resources.contains(k));
    }
    law_plan_reconciles_resources(
        ov.resource_ledger,
        ov.full.desired_resources.to_set(),
        rv.full.desired_resources.to_set(),
        ws,
        revision,
        label,
        plan,
        tx,
    );
    assert forall|k: Seq<char>| #[trigger] is_open(rv.resource_ledger, k) <==> rv.full.desired_resources.contains(k) by {
        assert(rv.full.desired_resources.to_set().contains(k) == rv.full.desired_resources.contains(k));
    }
}

} // verus!
