//! How each user action changes the canonical inputs.
use vstd::prelude::*;
use crate::dup::Dup;
use crate::observatory::bugs::{sat_dec, stale_status, stale_status_spec};
use crate::observatory::seed::{
    branch_files, branch_files_spec, files_consistent, record, APP_MAIN, APP_V2, SCHEMA_V2,
};
use crate::observatory::types::{
    Action, ActionView, AppState, AppStateView, CanonicalInputsView, FileRecord, FileRecordView,
    NaiveBugPolicy, NaiveBugPolicyView,
};
use crate::strmap::{strings_contain, strings_without, views, without, StrMap};
use crate::text::{append, owned, replace_all, replace_str, str_eq};

verus! {

/// The file the editing scenarios act on.
pub open spec fn app_path() -> Seq<char> {
    "src/app.tl"@
}

/// The files with `src/app.tl`, when present, given new contents.
pub open spec fn with_app_contents(files: Map<Seq<char>, FileRecordView>, contents: Seq<char>) -> Map<
    Seq<char>,
    FileRecordView,
> {
    if files.contains_key(app_path()) {
        files.insert(app_path(), FileRecordView { contents, ..files[app_path()] })
    } else {
        files
    }
}

/// The state with the analysis job of `src/app.tl` moved to the next
/// revision.
pub open spec fn bump_app_spec(s: AppStateView) -> AppStateView {
    AppStateView {
        analysis_revisions: s.analysis_revisions.insert(
            app_path(),
            (s.inputs.scenario_revision + 1) as u32,
        ),
        ..s
    }
}

/// The state with new inputs.
pub open spec fn with_inputs(s: AppStateView, inputs: CanonicalInputsView) -> AppStateView {
    AppStateView { inputs, ..s }
}

/// The files after the schema rename: `src/schema.tl` replaced by
/// `src/schema_v2.tl`, and the app's import of it rewritten.
pub open spec fn renamed_files(files: Map<Seq<char>, FileRecordView>) -> Map<Seq<char>, FileRecordView> {
    let f0 = files.remove("src/schema.tl"@).insert(
        "src/schema_v2.tl"@,
        record("src/schema_v2.tl", SCHEMA_V2, false),
    );
    if f0.contains_key(app_path()) {
        with_app_contents(f0, replace_all(f0[app_path()].contents, "./schema.tl"@, "./schema_v2.tl"@))
    } else {
        f0
    }
}

/// The analysis revision of the app before a stale result is injected.
pub open spec fn app_revision(s: AppStateView) -> u32 {
    if s.analysis_revisions.contains_key(app_path()) {
        s.analysis_revisions[app_path()]
    } else {
        s.inputs.scenario_revision
    }
}

/// The state after an action changes the inputs, before any derived state
/// is recomputed.
pub open spec fn mutate_spec(s: AppStateView, a: ActionView) -> AppStateView {
    let i = s.inputs;
    match a {
        ActionView::DeleteFile { path } => AppStateView {
            inputs: CanonicalInputsView {
                files: i.files.remove(path),
                open_editors: without(i.open_editors, path),
                ..i
            },
            analysis_revisions: s.analysis_revisions.remove(path),
            ..s
        },
        ActionView::SwitchBranch { branch } => {
            let files = branch_files_spec(branch);
            AppStateView {
                inputs: CanonicalInputsView {
                    active_branch: branch,
                    files,
                    open_editors: seq![app_path()],
                    active_editor: Some(app_path()),
                    ..i
                },
                analysis_revisions: Map::new(
                    |k: Seq<char>| files.contains_key(k),
                    |k: Seq<char>| (i.scenario_revision + 1) as u32,
                ),
                ..s
            }
        },
        ActionView::RenameSchema => with_inputs(
            s,
            CanonicalInputsView { files: renamed_files(i.files), ..i },
        ),
        ActionView::EditAppWithTypeError => bump_app_spec(
            with_inputs(
                s,
                CanonicalInputsView {
                    files: with_app_contents(
                        i.files,
                        replace_all(APP_MAIN@, "./legacy_user.tl\n"@, ""@),
                    ),
                    ..i
                },
            ),
        ),
        ActionView::FixApp => bump_app_spec(
            with_inputs(s, CanonicalInputsView { files: with_app_contents(i.files, APP_V2@), ..i }),
        ),
        ActionView::StartSlowAnalysis => bump_app_spec(s),
        ActionView::InjectStaleAnalysisResult => with_inputs(
            s,
            CanonicalInputsView {
                host_statuses: i.host_statuses.push(
                    stale_status_spec(sat_dec(app_revision(s)), (i.scenario_revision + 1) as u32),
                ),
                ..i
            },
        ),
        ActionView::ToggleGenerated => with_inputs(
            s,
            CanonicalInputsView { generated_files_enabled: !i.generated_files_enabled, ..i },
        ),
        ActionView::ChangeConfig { config } => with_inputs(
            s,
            CanonicalInputsView { compiler_config: config, ..i },
        ),
        ActionView::CloseAppTab => AppStateView {
            inputs: CanonicalInputsView {
                open_editors: without(i.open_editors, app_path()),
                active_editor: None,
                ..i
            },
            closed_scopes: s.closed_scopes.push("EditorTabScope(src/app.tl)"@),
            ..s
        },
        ActionView::OpenFile { path } => with_inputs(
            s,
            CanonicalInputsView {
                open_editors: if i.open_editors.contains(path) {
                    i.open_editors
                } else {
                    i.open_editors.push(path)
                },
                active_editor: Some(path),
                ..i
            },
        ),
        _ => s,
    }
}

/// The files of every branch are filed under their own paths.
pub proof fn lemma_branch_files_consistent(branch: Seq<char>)
    ensures
        files_consistent(branch_files_spec(branch)),
{
}

/// An action keeps files filed under their own paths.
pub proof fn lemma_mutate_consistent(s: AppStateView, a: ActionView)
    requires
        files_consistent(s.inputs.files),
    ensures
        files_consistent(mutate_spec(s, a).inputs.files),
{
    lemma_branch_files_consistent("main"@);
    lemma_branch_files_consistent("feature/schema-v2"@);
    match a {
        ActionView::SwitchBranch { branch } => {
            lemma_branch_files_consistent(branch);
        },
        _ => {},
    }
}

/// The label of the transaction an action starts.
pub open spec fn mutate_label(a: ActionView) -> Seq<char> {
    match a {
        ActionView::DeleteFile { path } => "Delete "@ + path,
        ActionView::SwitchBranch { branch } => "Switch branch to "@ + branch,
        ActionView::RenameSchema => "Rename src/schema.tl -> src/schema_v2.tl"@,
        ActionView::EditAppWithTypeError => "Edit src/app.tl with type error"@,
        ActionView::FixApp => "Fix src/app.tl"@,
        ActionView::StartSlowAnalysis => "Start slow analysis for src/app.tl"@,
        ActionView::InjectStaleAnalysisResult => "Inject stale AnalysisFinished(src/app.tl)"@,
        ActionView::ToggleGenerated => "Toggle generated files"@,
        ActionView::ChangeConfig { .. } => "Change compiler config"@,
        ActionView::CloseAppTab => "Close src/app.tl tab"@,
        ActionView::OpenFile { path } => "Open "@ + path,
        _ => "No-op"@,
    }
}

fn set_app_contents(files: &mut StrMap<FileRecord>, contents: String)
    ensures
        final(files)@ == with_app_contents(old(files)@, contents@),
{
    match files.remove("src/app.tl") {
        Some(app) => {
            let rec = FileRecord { path: app.path, contents, generated: app.generated };
            files.insert(owned("src/app.tl"), rec);
            proof {
                reveal_strlit("src/app.tl");
            }
            assert(final(files)@ =~= with_app_contents(old(files)@, contents@));
        },
        None => {
            assert(files@ =~= old(files)@);
        },
    }
}

fn bump_app_job(state: &mut AppState)
    requires
        old(state).inputs.scenario_revision < u32::MAX,
    ensures
        final(state).deep_view() == bump_app_spec(old(state).deep_view()),
{
    let next = state.inputs.scenario_revision + 1;
    state.analysis_revisions.insert(owned("src/app.tl"), next);
}

fn rename_schema(state: &mut AppState) -> (label: String)
    ensures
        final(state).deep_view() == mutate_spec(old(state).deep_view(), ActionView::RenameSchema),
        files_consistent(old(state).inputs.files@) ==> files_consistent(final(state).inputs.files@),
        label@ == mutate_label(ActionView::RenameSchema),
{
    let ghost f = state.inputs.files@;
    state.inputs.files.remove("src/schema.tl");
    let rec = FileRecord { path: owned("src/schema_v2.tl"), contents: owned(SCHEMA_V2), generated: false };
    state.inputs.files.insert(owned("src/schema_v2.tl"), rec);
    let ghost f0 = state.inputs.files@;
    proof {
        reveal_strlit("./schema.tl");
    }
    let app_contents = match state.inputs.files.get("src/app.tl") {
        Some(app) => Some(replace_str(app.contents.as_str(), "./schema.tl", "./schema_v2.tl")),
        None => None,
    };
    match app_contents {
        Some(c) => {
            set_app_contents(&mut state.inputs.files, c);
        },
        None => {},
    }
    proof {
        reveal_strlit("src/app.tl");
        reveal_strlit("src/schema.tl");
        reveal_strlit("src/schema_v2.tl");
        assert(state.inputs.files@ =~= renamed_files(f));
    }
    owned("Rename src/schema.tl -> src/schema_v2.tl")
}

fn inject_stale_status(state: &mut AppState) -> (label: String)
    requires
        old(state).inputs.scenario_revision < u32::MAX,
    ensures
        final(state).deep_view() == mutate_spec(
            old(state).deep_view(),
            ActionView::InjectStaleAnalysisResult,
        ),
        final(state).inputs.files@ == old(state).inputs.files@,
        label@ == mutate_label(ActionView::InjectStaleAnalysisResult),
{
    let current = match state.analysis_revisions.get("src/app.tl") {
        Some(r) => *r,
        None => state.inputs.scenario_revision,
    };
    let st = stale_status(current.saturating_sub(1), state.inputs.scenario_revision + 1);
    let ghost old_h = state.inputs.host_statuses.deep_view();
    state.inputs.host_statuses.push(st);
    proof {
        reveal_strlit("src/app.tl");
        assert(state.inputs.host_statuses.deep_view() =~= old_h.push(
            stale_status_spec(
                sat_dec(app_revision(old(state).deep_view())),
                (old(state).inputs.scenario_revision + 1) as u32,
            ),
        ));
    }
    owned("Inject stale AnalysisFinished(src/app.tl)")
}

pub(crate) fn revisions_for(files: &StrMap<FileRecord>, rev: u32) -> (r: StrMap<u32>)
    ensures
        r@ == Map::new(|k: Seq<char>| files@.contains_key(k), |k: Seq<char>| rev),
{
    files.lemma_keys();
    let keys = files.key_list();
    let mut r: StrMap<u32> = StrMap::new();
    let mut i: usize = 0;
    while i < keys.len()
        invariant
            views(keys@) == files.keys(),
            files@.dom() == files.keys().to_set(),
            i <= keys@.len(),
            r@ == Map::new(|k: Seq<char>| views(keys@).take(i as int).contains(k), |k: Seq<char>| rev),
        decreases keys.len() - i,
    {
        let ghost before = r@;
        r.insert(keys[i].clone(), rev);
        proof {
            let t = views(keys@).take(i as int);
            assert(views(keys@).take(i + 1) =~= t.push(keys@[i as int]@));
            crate::strmap::lemma_push_contains(t, keys@[i as int]@);
            assert(r@ =~= Map::new(
                |k: Seq<char>| views(keys@).take(i + 1).contains(k),
                |k: Seq<char>| rev,
            ));
        }
        i = i + 1;
    }
    proof {
        assert(views(keys@).take(keys@.len() as int) =~= views(keys@));
        assert forall|k: Seq<char>| views(keys@).contains(k) == files@.contains_key(k) by {
            assert(files.keys().to_set().contains(k) == files.keys().contains(k));
        }
        assert(r@ =~= Map::new(|k: Seq<char>| files@.contains_key(k), |k: Seq<char>| rev));
    }
    r
}

fn delete_file(state: &mut AppState, path: &String) -> (label: String)
    ensures
        final(state).deep_view() == mutate_spec(
            old(state).deep_view(),
            ActionView::DeleteFile { path: path@ },
        ),
        files_consistent(old(state).inputs.files@) ==> files_consistent(final(state).inputs.files@),
        label@ == mutate_label(ActionView::DeleteFile { path: path@ }),
{
    state.inputs.files.remove(path.as_str());
    state.inputs.open_editors = strings_without(state.inputs.open_editors.as_slice(), path.as_str());
    state.analysis_revisions.remove(path.as_str());
    let mut label = owned("Delete ");
    append(&mut label, path.as_str());
    assert(state.inputs.open_editors.deep_view() =~= views(state.inputs.open_editors@));
    assert(old(state).inputs.open_editors.deep_view() =~= views(old(state).inputs.open_editors@));
    label
}

fn switch_branch(state: &mut AppState, branch: &String) -> (label: String)
    requires
        old(state).inputs.scenario_revision < u32::MAX,
    ensures
        final(state).deep_view() == mutate_spec(
            old(state).deep_view(),
            ActionView::SwitchBranch { branch: branch@ },
        ),
        files_consistent(final(state).inputs.files@),
        label@ == mutate_label(ActionView::SwitchBranch { branch: branch@ }),
{
    proof {
        reveal_strlit("src/app.tl");
    }
    let next = state.inputs.scenario_revision + 1;
    state.inputs.active_branch = branch.dup();
    state.inputs.files = branch_files(branch.as_str());
    state.inputs.open_editors = vec![owned("src/app.tl")];
    state.inputs.active_editor = Some(owned("src/app.tl"));
    state.analysis_revisions = revisions_for(&state.inputs.files, next);
    assert(state.inputs.open_editors.deep_view() =~= seq![app_path()]);
    let ghost files = branch_files_spec(branch@);
    assert(state.analysis_revisions@ =~= Map::new(
        |k: Seq<char>| files.contains_key(k),
        |k: Seq<char>| (old(state).inputs.scenario_revision + 1) as u32,
    ));
    let mut label = owned("Switch branch to ");
    append(&mut label, branch.as_str());
    label
}

fn edit_app(state: &mut AppState, fixed: bool) -> (label: String)
    requires
        old(state).inputs.scenario_revision < u32::MAX,
    ensures
        final(state).deep_view() == mutate_spec(
            old(state).deep_view(),
            if fixed {
                ActionView::FixApp
            } else {
                ActionView::EditAppWithTypeError
            },
        ),
        files_consistent(old(state).inputs.files@) ==> files_consistent(final(state).inputs.files@),
        label@ == mutate_label(
            if fixed {
                ActionView::FixApp
            } else {
                ActionView::EditAppWithTypeError
            },
        ),
{
    proof {
        reveal_strlit("./legacy_user.tl\n");
        reveal_strlit("src/app.tl");
    }
    let c = if fixed {
        owned(APP_V2)
    } else {
        replace_str(APP_MAIN, "./legacy_user.tl\n", "")
    };
    set_app_contents(&mut state.inputs.files, c);
    bump_app_job(state);
    if fixed {
        owned("Fix src/app.tl")
    } else {
        owned("Edit src/app.tl with type error")
    }
}

fn close_app_tab(state: &mut AppState) -> (label: String)
    ensures
        final(state).deep_view() == mutate_spec(old(state).deep_view(), ActionView::CloseAppTab),
        final(state).inputs.files@ == old(state).inputs.files@,
        label@ == mutate_label(ActionView::CloseAppTab),
{
    proof {
        reveal_strlit("src/app.tl");
    }
    state.inputs.open_editors = strings_without(state.inputs.open_editors.as_slice(), "src/app.tl");
    state.inputs.active_editor = None;
    let ghost old_c = state.closed_scopes.deep_view();
    state.closed_scopes.push(owned("EditorTabScope(src/app.tl)"));
    assert(state.closed_scopes.deep_view() =~= old_c.push("EditorTabScope(src/app.tl)"@));
    assert(state.inputs.open_editors.deep_view() =~= views(state.inputs.open_editors@));
    assert(old(state).inputs.open_editors.deep_view() =~= views(old(state).inputs.open_editors@));
    owned("Close src/app.tl tab")
}

fn open_file(state: &mut AppState, path: &String) -> (label: String)
    ensures
        final(state).deep_view() == mutate_spec(
            old(state).deep_view(),
            ActionView::OpenFile { path: path@ },
        ),
        final(state).inputs.files@ == old(state).inputs.files@,
        label@ == mutate_label(ActionView::OpenFile { path: path@ }),
{
    assert(state.inputs.open_editors.deep_view() =~= views(state.inputs.open_editors@));
    if !strings_contain(state.inputs.open_editors.as_slice(), path.as_str()) {
        let ghost old_o = state.inputs.open_editors.deep_view();
        state.inputs.open_editors.push(path.dup());
        assert(state.inputs.open_editors.deep_view() =~= old_o.push(path@));
    }
    state.inputs.active_editor = Some(path.dup());
    let mut label = owned("Open ");
    append(&mut label, path.as_str());
    label
}

/// Applies an action to the canonical inputs (and the analysis revisions
/// and closed scopes it touches) and returns the transaction's label.
pub fn mutate_inputs(state: &mut AppState, action: &Action) -> (label: String)
    requires
        old(state).inputs.scenario_revision < u32::MAX,
    ensures
        final(state).deep_view() == mutate_spec(old(state).deep_view(), action.deep_view()),
        files_consistent(old(state).inputs.files@) ==> files_consistent(final(state).inputs.files@),
        label@ == mutate_label(action.deep_view()),
{
    match action {
        Action::DeleteFile { path } => delete_file(state, path),
        Action::SwitchBranch { branch } => switch_branch(state, branch),
        Action::RenameSchema => rename_schema(state),
        Action::EditAppWithTypeError => edit_app(state, false),
        Action::FixApp => edit_app(state, true),
        Action::StartSlowAnalysis => {
            bump_app_job(state);
            owned("Start slow analysis for src/app.tl")
        },
        Action::InjectStaleAnalysisResult => inject_stale_status(state),
        Action::ToggleGenerated => {
            state.inputs.generated_files_enabled = !state.inputs.generated_files_enabled;
            owned("Toggle generated files")
        },
        Action::ChangeConfig { config } => {
            state.inputs.compiler_config = *config;
            owned("Change compiler config")
        },
        Action::CloseAppTab => close_app_tab(state),
        Action::OpenFile { path } => open_file(state, path),
        _ => owned("No-op"),
    }
}

/// The bug policy with one switch set; unknown keys change nothing.
pub open spec fn set_bug_spec(p: NaiveBugPolicyView, key: Seq<char>, value: bool) -> NaiveBugPolicyView {
    if key == "skipClearDiagnosticsForDeletedFile"@ {
        NaiveBugPolicyView { skip_clear_diagnostics_for_deleted_file: value, ..p }
    } else if key == "skipDocumentLinkRebaseline"@ {
        NaiveBugPolicyView { skip_document_link_rebaseline: value, ..p }
    } else if key == "skipWatcherClose"@ {
        NaiveBugPolicyView { skip_watcher_close: value, ..p }
    } else if key == "acceptStaleAnalysisResults"@ {
        NaiveBugPolicyView { accept_stale_analysis_results: value, ..p }
    } else if key == "skipScopeCloseOutputClear"@ {
        NaiveBugPolicyView { skip_scope_close_output_clear: value, ..p }
    } else {
        p
    }
}

/// Sets one naive bug switch by its key.
pub fn set_bug(policy: &mut NaiveBugPolicy, key: &str, value: bool)
    ensures
        final(policy).deep_view() == set_bug_spec(old(policy).deep_view(), key@, value),
{
    if str_eq(key, "skipClearDiagnosticsForDeletedFile") {
        policy.skip_clear_diagnostics_for_deleted_file = value;
    } else if str_eq(key, "skipDocumentLinkRebaseline") {
        policy.skip_document_link_rebaseline = value;
    } else if str_eq(key, "skipWatcherClose") {
        policy.skip_watcher_close = value;
    } else if str_eq(key, "acceptStaleAnalysisResults") {
        policy.accept_stale_analysis_results = value;
    } else if str_eq(key, "skipScopeCloseOutputClear") {
        policy.skip_scope_close_output_clear = value;
    }
}

} // verus!
