use trellis_observatory::observatory::language::diagnostics;
use trellis_observatory::observatory::types::CompilerConfig;
use trellis_observatory::observatory::boundary::state_is_well_formed;
use trellis_observatory::observatory::core_runtime::{bootstrap, transition, CoreTransition};
use trellis_observatory::observatory::engine::{dispatch_action, empty_full, initial_app_state};
use trellis_observatory::observatory::projection::{output_frames, plan_commands};
use trellis_observatory::observatory::types::{Action, FileRecord};

fn strings(items: &[&str]) -> Vec<String> {
    items.iter().map(|s| s.to_string()).collect()
}

#[test]
fn plan_towards_empty_demand_opens_nothing() {
    let before = strings(&["AnalysisJob(src/a.tl@3)", "WatchFile(src/a.tl)"]);
    let plan = plan_commands(&before, &[], "WorkspaceScope(main)", 4, "Delete file");
    assert_eq!(plan.len(), 2);
    assert!(plan.iter().all(|c| c.op != "Open"));
    assert_eq!(plan[0].op, "Cancel");
    assert_eq!(plan[0].key, "AnalysisJob(src/a.tl@3)");
    assert_eq!(plan[1].op, "Close");
    assert_eq!(plan[1].key, "WatchFile(src/a.tl)");
    assert_eq!(plan[1].scope, "FileScope(src/a.tl)");
    assert_eq!(plan[1].command_revision, 4);
}

#[test]
fn plan_opens_entering_keys_before_closing_leaving_ones() {
    let plan = plan_commands(
        &strings(&["WatchFile(src/a.tl)", "WatchFile(src/b.tl)"]),
        &strings(&["WatchFile(src/c.tl)", "WatchFile(src/b.tl)"]),
        "WorkspaceScope(main)",
        2,
        "Switch branch",
    );
    let ops: Vec<(String, String)> = plan.iter().map(|c| (c.op.clone(), c.key.clone())).collect();
    assert_eq!(
        ops,
        vec![
            ("Open".to_owned(), "WatchFile(src/c.tl)".to_owned()),
            ("Close".to_owned(), "WatchFile(src/a.tl)".to_owned()),
        ]
    );
}

#[test]
fn bootstrap_and_transition_project_the_same_plans_as_the_engine() {
    let state = initial_app_state();
    let boot = bootstrap(&state.inputs, &state.analysis_revisions, &state.full);
    assert_eq!(boot.transaction_id, 1);
    assert_eq!(boot.revision, 1);
    assert_eq!(boot.resource_commands.len(), state.traces[0].resource_commands.len());
    assert!(boot.resource_commands.iter().all(|c| c.op == "Open"));
    assert_eq!(boot.output_frames.len(), state.traces[0].output_frames.len());

    let next = dispatch_action(
        state.clone(),
        Action::DeleteFile {
            path: "src/legacy_user.tl".to_owned(),
        },
    );
    let step = transition(CoreTransition {
        before_inputs: &state.inputs,
        before_analysis: &state.analysis_revisions,
        before_full: &state.full,
        after_inputs: &next.inputs,
        after_analysis: &next.analysis_revisions,
        after_full: &next.full,
        app_revision: next.inputs.scenario_revision,
        label: "Delete src/legacy_user.tl",
    });
    assert_eq!(step.transaction_id, 2);
    let last = next.traces.last().unwrap();
    let ops: Vec<(String, String)> = step
        .resource_commands
        .iter()
        .map(|c| (c.op.clone(), c.key.clone()))
        .collect();
    let engine_ops: Vec<(String, String)> = last
        .resource_commands
        .iter()
        .map(|c| (c.op.clone(), c.key.clone()))
        .collect();
    assert_eq!(ops, engine_ops);
    assert!(step
        .output_frames
        .iter()
        .any(|f| f.kind == "ClearDiagnostics" && f.file_path.as_deref() == Some("src/legacy_user.tl")));
}

#[test]
fn frames_from_nothing_baseline_every_output() {
    let state = initial_app_state();
    let frames = output_frames(&empty_full(), &state.full, 1, "Open main branch");
    assert!(!frames.is_empty());
    assert!(frames.iter().all(|f| f.kind.starts_with("Baseline")));
}

#[test]
fn well_formed_states_are_recognized() {
    let state = initial_app_state();
    assert!(state_is_well_formed(&state));
    let mut broken = state.clone();
    broken.inputs.files.insert(
        "src/ghost.tl".to_owned(),
        FileRecord {
            path: "src/other.tl".to_owned(),
            contents: String::new(),
            generated: false,
        },
    );
    assert!(!state_is_well_formed(&broken));
}

#[test]
fn replay_of_a_transaction_run_passes_every_check() {
    let state = trellis_observatory::observatory::engine::dispatch_action(
        trellis_observatory::observatory::engine::initial_app_state(),
        trellis_observatory::observatory::types::Action::SwitchBranch {
            branch: "feature/schema-v2".to_owned(),
        },
    );
    let state = trellis_observatory::observatory::engine::dispatch_action(
        state,
        trellis_observatory::observatory::types::Action::ToggleGenerated,
    );
    let replay = trellis_observatory::observatory::replay::replay_current_trace(&state);
    assert_eq!(replay.status, "pass");
    assert!(replay.final_observable_matches);
    assert_eq!(replay.checks.len(), 5);
    assert!(replay.checks.iter().all(|check| check.status == "pass"));
}

#[test]
fn replay_diverges_when_the_mode_changed_after_a_transaction() {
    let state = trellis_observatory::observatory::engine::dispatch_action(
        trellis_observatory::observatory::engine::initial_app_state(),
        trellis_observatory::observatory::types::Action::DeleteFile {
            path: "src/legacy_user.tl".to_owned(),
        },
    );
    let state = trellis_observatory::observatory::engine::dispatch_action(
        state,
        trellis_observatory::observatory::types::Action::SetMode {
            mode: "naive".to_owned(),
        },
    );
    let replay = trellis_observatory::observatory::replay::replay_current_trace(&state);
    assert_eq!(replay.status, "fail");
}

#[test]
fn replay_passes_when_an_explanation_was_selected_between_transactions() {
    let state = dispatch_action(
        initial_app_state(),
        Action::DeleteFile {
            path: "src/legacy_user.tl".to_owned(),
        },
    );
    let state = dispatch_action(
        state,
        Action::SelectWhy {
            id: Some("resource-0".to_owned()),
        },
    );
    let state = dispatch_action(state, Action::ToggleGenerated);
    let replay = trellis_observatory::observatory::replay::replay_current_trace(&state);
    assert_eq!(replay.status, "pass");
    assert!(replay.final_observable_matches);
}

#[test]
fn receipts_are_graph_backed_in_trellis_mode_only() {
    let state = initial_app_state();
    let first = &state.traces[0];
    assert!(first.core_backed);
    assert_eq!(first.core_transaction_id, Some(1));
    assert_eq!(first.core_revision, Some(1));
    assert_eq!(
        first.audit_edges.last().map(|e| e.as_str()),
        Some("trellis-core::ProduceResourcePlans")
    );
    let mut naive = initial_app_state();
    naive.mode = "naive".to_owned();
    let naive = dispatch_action(naive, Action::ToggleGenerated);
    let last = naive.traces.last().unwrap();
    assert!(!last.core_backed);
    assert_eq!(last.core_transaction_id, None);
    assert_eq!(last.core_revision, None);
    assert!(!last.audit_edges.iter().any(|e| e.starts_with("trellis-core::")));
}

#[test]
fn ledger_entries_keep_sorted_owners_and_the_last_command() {
    let state = dispatch_action(
        initial_app_state(),
        Action::DeleteFile {
            path: "src/legacy_user.tl".to_owned(),
        },
    );
    let entry = state
        .resource_ledger
        .get("WatchFile(src/legacy_user.tl)")
        .unwrap();
    assert_eq!(entry.state, "closed");
    assert_eq!(entry.last_tx_id, 2);
    assert_eq!(entry.last_command_revision, 2);
    assert!(entry.owners.is_empty());
    let untouched = state.resource_ledger.get("WatchFile(src/app.tl)").unwrap();
    assert_eq!(untouched.last_tx_id, 1);
    assert_eq!(untouched.state, "open");
    for i in 0..state.resource_ledger.len() {
        let e = state.resource_ledger.val_at(i);
        for w in e.owners.windows(2) {
            assert!(w[0] < w[1]);
        }
    }
}

#[test]
fn loose_config_and_declared_field_drop_only_their_errors() {
    let text = "TODO_ERROR\nlet x = add(1, \"two\")\nlet y = user.email_verified\n";
    let strict = diagnostics("src/a.tl", text, &[], &CompilerConfig::Strict, false);
    let loose = diagnostics("src/a.tl", text, &[], &CompilerConfig::Loose, false);
    let declared = diagnostics("src/a.tl", text, &[], &CompilerConfig::Strict, true);
    let messages = |ds: &Vec<trellis_observatory::observatory::types::Diagnostic>| {
        ds.iter().map(|d| d.message.clone()).collect::<Vec<_>>()
    };
    assert_eq!(
        messages(&strict),
        vec![
            "TODO_ERROR marker".to_owned(),
            "Type mismatch: add(number, string)".to_owned(),
            "Unknown field email_verified".to_owned(),
        ]
    );
    assert_eq!(
        messages(&loose),
        vec!["TODO_ERROR marker".to_owned(), "Unknown field email_verified".to_owned()]
    );
    assert_eq!(
        messages(&declared),
        vec!["TODO_ERROR marker".to_owned(), "Type mismatch: add(number, string)".to_owned()]
    );
}

#[test]
fn closed_scope_check_fails_when_a_removed_file_returns() {
    let state = dispatch_action(initial_app_state(), Action::ToggleGenerated);
    let state = dispatch_action(state, Action::ToggleGenerated);
    let checks = &state.traces.last().unwrap().invariant_checks;
    assert_eq!(checks.len(), 10);
    assert_eq!(checks[6].id, "closed-scope-owns-no-resources");
    assert_eq!(checks[6].status, "fail");
    for (i, check) in checks.iter().enumerate() {
        if i != 6 {
            assert_eq!(check.status, "pass");
        }
    }
}

#[test]
fn states_filed_under_other_keys_still_dispatch() {
    use_dispatch_ready_cases();
}

fn use_dispatch_ready_cases() {
    let mut aliased = initial_app_state();
    aliased.inputs.files.insert(
        "src/alias.tl".to_owned(),
        FileRecord {
            path: "src/math.tl".to_owned(),
            contents: "module alias\n".to_owned(),
            generated: false,
        },
    );
    assert!(!state_is_well_formed(&aliased));
    assert!(trellis_observatory::observatory::boundary::dispatch_ready(&aliased, &Action::ToggleGenerated));
    let next = dispatch_action(aliased, Action::ToggleGenerated);
    assert_eq!(next.traces.len(), 2);

    let mut dangling = initial_app_state();
    dangling.inputs.files.insert(
        "src/ghost.tl".to_owned(),
        FileRecord {
            path: "src/missing.tl".to_owned(),
            contents: String::new(),
            generated: false,
        },
    );
    assert!(!trellis_observatory::observatory::boundary::dispatch_ready(&dangling, &Action::ToggleGenerated));
    assert!(trellis_observatory::observatory::boundary::dispatch_ready(
        &dangling,
        &Action::SetMode {
            mode: "naive".to_owned()
        }
    ));
    let mut overflowing = initial_app_state();
    overflowing.inputs.scenario_revision = u32::MAX;
    assert!(!trellis_observatory::observatory::boundary::dispatch_ready(&overflowing, &Action::FixApp));
}
