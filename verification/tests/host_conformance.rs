use trellis_observatory::gate::host_conformance::{HostConformanceError, HostConformanceLedger};
use trellis_observatory::gate::plan::{
    HostResourceOutcome, HostStatusReport, ResourceCommand, ResourceCommandKind, TransactionResult,
};

fn open(key: &str) -> ResourceCommand {
    ResourceCommand {
        kind: ResourceCommandKind::Open,
        key: key.to_owned(),
        scope: 1,
    }
}

fn close(key: &str) -> ResourceCommand {
    ResourceCommand {
        kind: ResourceCommandKind::Close,
        key: key.to_owned(),
        scope: 1,
    }
}

fn result(revision: u64, plan: Vec<ResourceCommand>) -> TransactionResult<()> {
    TransactionResult {
        transaction_id: revision,
        revision,
        resource_plan: plan,
        output_frames: Vec::new(),
    }
}

fn report(key: &str, revision: u64, outcome: HostResourceOutcome) -> HostStatusReport {
    HostStatusReport {
        key: key.to_owned(),
        scope: 1,
        command_revision: revision,
        status_revision: revision + 100,
        outcome,
    }
}

fn conforming() -> HostConformanceLedger {
    let plan = result(1, vec![open("watch:a"), open("watch:b")]);
    let mut ledger = HostConformanceLedger::new();
    ledger.declare_executor("host".to_owned());
    ledger.record_preview("open".to_owned(), &plan);
    ledger.record_commit("open".to_owned(), &plan);
    ledger.record_effects_from_commit("open".to_owned(), "host".to_owned(), &plan);
    ledger
}

#[test]
fn applying_the_committed_plan_conforms() {
    let mut ledger = conforming();
    ledger.record_status(report("watch:a", 1, HostResourceOutcome::Open));
    ledger.record_status(report("watch:b", 1, HostResourceOutcome::Failed("denied".to_owned())));
    ledger.assert_host_seam_conforms().unwrap();
    ledger.assert_statuses_follow_effects().unwrap();
}

#[test]
fn commit_without_preview_is_reported() {
    let mut ledger = HostConformanceLedger::new();
    ledger.record_commit("switch".to_owned(), &result(2, vec![close("watch:a")]));
    match ledger.assert_commits_match_previews() {
        Err(HostConformanceError::MissingPreview { step }) => assert_eq!(step, "switch"),
        other => panic!("unexpected {other:?}"),
    }
}

#[test]
fn commit_that_differs_from_preview_is_reported() {
    let mut ledger = HostConformanceLedger::new();
    ledger.record_preview("switch".to_owned(), &result(2, vec![close("watch:a")]));
    ledger.record_commit("switch".to_owned(), &result(2, vec![close("watch:b")]));
    match ledger.assert_host_seam_conforms() {
        Err(HostConformanceError::CommitDiffersFromPreview {
            step,
            previewed,
            committed,
        }) => {
            assert_eq!(step, "switch");
            assert_eq!(previewed[0].key, "watch:a");
            assert_eq!(committed[0].key, "watch:b");
        }
        other => panic!("unexpected {other:?}"),
    }
}

#[test]
fn effect_applied_twice_is_reported() {
    let mut ledger = conforming();
    ledger.record_effect("open".to_owned(), "host".to_owned(), 1, 1, open("watch:a"));
    match ledger.assert_effects_match_commits() {
        Err(HostConformanceError::EffectWithoutCommit { effect }) => {
            assert_eq!(effect.command.key, "watch:a");
            assert_eq!(effect.step, "open");
        }
        other => panic!("unexpected {other:?}"),
    }
}

#[test]
fn effect_of_an_uncommitted_step_is_reported() {
    let mut ledger = conforming();
    ledger.record_effect("other".to_owned(), "host".to_owned(), 3, 3, close("watch:a"));
    assert!(matches!(
        ledger.assert_effects_match_commits(),
        Err(HostConformanceError::EffectWithoutCommit { .. })
    ));
}

#[test]
fn undeclared_effect_site_is_reported() {
    let mut ledger = conforming();
    ledger.record_effect_site("worker".to_owned());
    ledger.record_effect_site("cron".to_owned());
    match ledger.assert_effects_use_declared_executors() {
        Err(HostConformanceError::UndeclaredEffectSite { site }) => assert_eq!(site, "cron"),
        other => panic!("unexpected {other:?}"),
    }
}

#[test]
fn report_without_matching_effect_is_reported() {
    let mut ledger = conforming();
    ledger.record_status(report("watch:a", 1, HostResourceOutcome::Closed));
    match ledger.assert_statuses_follow_effects() {
        Err(HostConformanceError::StatusWithoutEffect { status }) => assert_eq!(status.key, "watch:a"),
        other => panic!("unexpected {other:?}"),
    }
}
