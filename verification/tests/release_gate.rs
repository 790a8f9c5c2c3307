use trellis_observatory::gate::output_ledger::{OutputLedger, OutputLedgerError};
use trellis_observatory::gate::plan::{
    HostStatusClass, HostStatusEvent, OutputFrame, OutputFrameKind, ResourceCommand, ResourceCommandKind,
    TransactionResult,
};
use trellis_observatory::gate::resource_ledger::{ResourceLedger, ResourceLedgerError};
use trellis_observatory::gate::scopes::ScopeSet;
use trellis_observatory::testkit::conformance::{ConformanceLevel, ConformanceReport};

const SCOPE: u64 = 1;
const OUTPUT: u64 = 1;

fn key(value: u8) -> String {
    format!("test:{value}")
}

fn command(kind: ResourceCommandKind, value: u8, scope: u64) -> ResourceCommand {
    ResourceCommand {
        kind,
        key: key(value),
        scope,
    }
}

fn commit(
    transaction_id: u64,
    resource_plan: Vec<ResourceCommand>,
    output_frames: Vec<OutputFrame<Vec<u32>>>,
) -> TransactionResult<Vec<u32>> {
    TransactionResult {
        transaction_id,
        revision: transaction_id,
        resource_plan,
        output_frames,
    }
}

fn frame(transaction_id: u64, kind: OutputFrameKind<Vec<u32>>) -> OutputFrame<Vec<u32>> {
    OutputFrame {
        output_key: OUTPUT,
        scope: SCOPE,
        transaction_id,
        revision: transaction_id,
        kind,
    }
}

/// The first commit: each member opened as `test:{n}` in one scope, and
/// the members sent as the output's baseline.
fn initial(members: &[u32]) -> TransactionResult<Vec<u32>> {
    let plan = members
        .iter()
        .map(|m| command(ResourceCommandKind::Open, *m as u8, SCOPE))
        .collect();
    commit(1, plan, vec![frame(1, OutputFrameKind::Baseline(members.to_vec()))])
}

fn scopes(values: &[u64]) -> ScopeSet {
    let mut s = ScopeSet::new();
    for v in values {
        s.insert(*v);
    }
    s
}

#[test]
fn resource_ledger_detects_lifecycle_and_status_classes() {
    let initial = initial(&[1, 2]);
    let mut ledger = ResourceLedger::new();
    ledger.mark_forbidden_unless_explicit("test:*".to_owned());
    ledger.apply_result(&initial);
    ledger.assert_all_resources_have_owner().unwrap();
    ledger.assert_no_forbidden_opened().unwrap();

    let shrink = commit(
        2,
        vec![command(ResourceCommandKind::Close, 2, SCOPE)],
        vec![frame(2, OutputFrameKind::Delta(vec![1]))],
    );
    ledger.apply_result(&shrink);
    ledger.assert_resource_not_open(&key(2)).unwrap();
    ledger.assert_no_duplicate_close().unwrap();

    let status = HostStatusEvent {
        key: key(1),
        scope: SCOPE,
        command_revision: 0,
        status_revision: 100,
    };
    assert_eq!(ledger.classify_status(status), HostStatusClass::Stale);

    let current = HostStatusEvent {
        key: key(1),
        scope: SCOPE,
        command_revision: initial.revision,
        status_revision: 101,
    };
    assert_eq!(ledger.classify_status(current.clone()), HostStatusClass::Current);
    assert_eq!(ledger.classify_status(current), HostStatusClass::Duplicate);

    let future = HostStatusEvent {
        key: key(1),
        scope: SCOPE,
        command_revision: 10,
        status_revision: 102,
    };
    assert_eq!(ledger.classify_status(future), HostStatusClass::Future);
}

#[test]
fn output_ledger_checks_revision_and_rebaseline_coherence() {
    let initial = initial(&[1]);
    let mut ledger = OutputLedger::new();
    ledger.apply_result(&initial);
    ledger.assert_current_equals(OUTPUT, &vec![1]).unwrap();

    let next = commit(
        2,
        vec![command(ResourceCommandKind::Open, 2, SCOPE)],
        vec![frame(2, OutputFrameKind::Delta(vec![1, 2]))],
    );
    ledger.apply_result(&next);
    ledger.assert_current_equals(OUTPUT, &vec![1, 2]).unwrap();

    let rebaseline = commit(3, Vec::new(), vec![frame(3, OutputFrameKind::Rebaseline(vec![1, 2]))]);
    ledger.apply_result(&rebaseline);
    ledger.assert_revision_monotonic().unwrap();
    ledger.assert_current_equals(OUTPUT, &vec![1, 2]).unwrap();

    assert!(matches!(
        &rebaseline.output_frames[0].kind,
        OutputFrameKind::Rebaseline(value) if value == &vec![1, 2]
    ));

    let closed = commit(
        4,
        vec![
            command(ResourceCommandKind::Close, 1, SCOPE),
            command(ResourceCommandKind::Close, 2, SCOPE),
        ],
        vec![frame(4, OutputFrameKind::Clear)],
    );
    ledger.close_scope(SCOPE);
    ledger.apply_result(&closed);
    ledger.assert_cleared(OUTPUT).unwrap();
}

#[test]
fn conformance_levels_report_unsupported_explicitly() {
    let report = ConformanceReport::new()
        .support(ConformanceLevel::DeterministicTrace)
        .support(ConformanceLevel::ScopeResourceLifecycle)
        .support(ConformanceLevel::MaterializedOutput)
        .support(ConformanceLevel::FullRecomputeOracle)
        .unsupported(ConformanceLevel::GeneratedModelSequences);

    assert!(report.supports(ConformanceLevel::DeterministicTrace));
    assert!(report
        .unsupported_levels()
        .contains(&ConformanceLevel::GeneratedModelSequences));
}

#[test]
fn open_then_close_by_the_same_scope_releases() {
    let mut ledger = ResourceLedger::new();
    ledger.apply_result(&commit(
        1,
        vec![
            command(ResourceCommandKind::Open, 7, 3),
            command(ResourceCommandKind::Close, 7, 3),
        ],
        Vec::new(),
    ));
    assert!(ledger.snapshot(&key(7)).is_none());
    ledger.assert_no_duplicate_close().unwrap();
    ledger.assert_resource_not_open(&key(7)).unwrap();
    assert_eq!(ledger.command_trace().len(), 2);
}

#[test]
fn shared_resource_survives_one_close() {
    let mut ledger = ResourceLedger::new();
    ledger.apply_result(&commit(
        1,
        vec![
            command(ResourceCommandKind::Open, 5, 1),
            command(ResourceCommandKind::Open, 5, 2),
            command(ResourceCommandKind::Close, 5, 1),
        ],
        Vec::new(),
    ));
    ledger.assert_resource_shared_by(&key(5), scopes(&[2])).unwrap();
    let snap = ledger.snapshot(&key(5)).unwrap();
    assert_eq!(snap.open_count, 2);
    assert_eq!(snap.close_count, 1);
    assert_eq!(snap.generation, 3);
    match ledger.assert_resource_shared_by(&key(5), scopes(&[1, 2])) {
        Err(ResourceLedgerError::OwnerMismatch { key: k, actual, .. }) => {
            assert_eq!(k, key(5));
            assert_eq!(actual.to_vec(), vec![2]);
        }
        other => panic!("unexpected {other:?}"),
    }
    match ledger.assert_resource_not_open(&key(5)) {
        Err(ResourceLedgerError::StillOpen(k)) => assert_eq!(k, key(5)),
        other => panic!("unexpected {other:?}"),
    }
}

#[test]
fn stray_close_and_forbidden_open_are_reported() {
    let mut ledger = ResourceLedger::new();
    ledger.mark_forbidden_unless_explicit(key(9));
    ledger.apply_result(&commit(
        1,
        vec![
            command(ResourceCommandKind::Close, 4, 1),
            command(ResourceCommandKind::Open, 9, 1),
            command(ResourceCommandKind::Close, 9, 2),
        ],
        Vec::new(),
    ));
    match ledger.assert_no_duplicate_close() {
        Err(ResourceLedgerError::DuplicateClose(k)) => assert_eq!(k, key(4)),
        other => panic!("unexpected {other:?}"),
    }
    match ledger.assert_no_forbidden_opened() {
        Err(ResourceLedgerError::ForbiddenOpen(k)) => assert_eq!(k, key(9)),
        other => panic!("unexpected {other:?}"),
    }
    ledger.assert_all_resources_have_owner().unwrap();
    let late = HostStatusEvent {
        key: key(9),
        scope: 2,
        command_revision: 1,
        status_revision: 1,
    };
    assert_eq!(ledger.classify_status(late), HostStatusClass::Late);
    let unknown = HostStatusEvent {
        key: key(8),
        scope: 1,
        command_revision: 1,
        status_revision: 2,
    };
    assert_eq!(ledger.classify_status(unknown), HostStatusClass::Late);
    assert_eq!(ledger.status_records().len(), 2);
}

#[test]
fn replace_and_refresh_update_the_record() {
    let mut ledger = ResourceLedger::new();
    ledger.apply_result(&commit(1, vec![command(ResourceCommandKind::Replace, 3, 1)], Vec::new()));
    ledger.apply_result(&commit(2, vec![command(ResourceCommandKind::Refresh, 3, 1)], Vec::new()));
    ledger.apply_result(&commit(3, vec![command(ResourceCommandKind::Refresh, 6, 1)], Vec::new()));
    let snap = ledger.snapshot(&key(3)).unwrap();
    assert_eq!(snap.replace_count, 1);
    assert_eq!(snap.command_revision, 2);
    assert_eq!(snap.generation, 2);
    assert!(ledger.snapshot(&key(6)).is_none());
}

#[test]
fn command_order_is_checked_exactly() {
    let mut ledger = ResourceLedger::new();
    let plan = vec![
        command(ResourceCommandKind::Open, 1, 1),
        command(ResourceCommandKind::Open, 2, 1),
    ];
    ledger.apply_result(&commit(1, plan.clone(), Vec::new()));
    ledger.assert_command_order(&plan).unwrap();
    let reversed = vec![plan[1].clone(), plan[0].clone()];
    match ledger.assert_command_order(&reversed) {
        Err(ResourceLedgerError::CommandOrderMismatch { expected, actual }) => {
            assert_eq!(expected[0].key, key(2));
            assert_eq!(actual[0].key, key(1));
        }
        other => panic!("unexpected {other:?}"),
    }
}

#[test]
fn output_problems_are_recorded_in_order() {
    let mut ledger: OutputLedger<Vec<u32>> = OutputLedger::new();
    ledger.apply_frame(&frame(5, OutputFrameKind::Baseline(vec![3])));
    ledger.apply_frame(&frame(4, OutputFrameKind::Delta(vec![4])));
    ledger.close_scope(SCOPE);
    ledger.apply_frame(&frame(6, OutputFrameKind::Delta(vec![5])));
    assert_eq!(
        ledger.assert_revision_monotonic(),
        Err(OutputLedgerError::RevisionRegression {
            key: OUTPUT,
            previous: 5,
            next: 4
        })
    );
    assert_eq!(ledger.assert_cleared(OUTPUT), Err(OutputLedgerError::NotCleared(OUTPUT)));
    assert_eq!(
        ledger.assert_current_equals(OUTPUT, &vec![4]),
        Err(OutputLedgerError::StateMismatch(OUTPUT))
    );
    ledger.assert_current_equals(OUTPUT, &vec![5]).unwrap();
    assert_eq!(ledger.snapshot(OUTPUT).unwrap().revision, 6);
    assert_eq!(ledger.assert_cleared(9), Err(OutputLedgerError::NotCleared(9)));
}

#[test]
fn shared_resource_lifecycle_counts_and_releases() {
    let mut ledger = ResourceLedger::new();
    ledger.apply_result(&commit(1, vec![command(ResourceCommandKind::Open, 5, 1)], Vec::new()));
    ledger.apply_result(&commit(2, vec![command(ResourceCommandKind::Open, 5, 2)], Vec::new()));
    ledger.apply_result(&commit(3, vec![command(ResourceCommandKind::Close, 5, 1)], Vec::new()));
    let snapshot = ledger.snapshot(&key(5)).unwrap();
    assert!(snapshot.owners.same(&scopes(&[2])));
    assert_eq!(snapshot.open_count, 2);
    assert_eq!(snapshot.close_count, 1);
    assert_eq!(snapshot.replace_count, 0);
    assert_eq!(snapshot.command_revision, 3);
    assert_eq!(snapshot.generation, 3);
    assert!(ledger.assert_no_duplicate_close().is_ok());
    ledger.apply_result(&commit(4, vec![command(ResourceCommandKind::Close, 5, 2)], Vec::new()));
    assert!(ledger.snapshot(&key(5)).is_none());
    assert!(ledger.assert_no_duplicate_close().is_ok());
    ledger.apply_result(&commit(5, vec![command(ResourceCommandKind::Close, 5, 2)], Vec::new()));
    assert!(matches!(
        ledger.assert_no_duplicate_close(),
        Err(ResourceLedgerError::DuplicateClose(k)) if k == key(5)
    ));
}
