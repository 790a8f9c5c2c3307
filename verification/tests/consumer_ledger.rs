use trellis_observatory::gate::plan::{OutputFrame, OutputFrameKind, TransactionResult};
use trellis_observatory::testkit::output_ledger::{
    OutputFrameKindTrace, OutputFrameTrace, OutputLedger, OutputLedgerError,
};

fn frame(key: u64, scope: u64, revision: u64, kind: OutputFrameKind<Vec<u32>>) -> OutputFrame<Vec<u32>> {
    OutputFrame {
        output_key: key,
        scope,
        transaction_id: revision,
        revision,
        kind,
    }
}

fn result(revision: u64, frames: Vec<OutputFrame<Vec<u32>>>) -> TransactionResult<Vec<u32>> {
    TransactionResult {
        transaction_id: revision,
        revision,
        resource_plan: Vec::new(),
        output_frames: frames,
    }
}

#[test]
fn consumer_ledger_tracks_values_and_frame_traces() {
    let mut ledger = OutputLedger::new();
    ledger.apply_result(&result(
        1,
        vec![
            frame(1, 10, 1, OutputFrameKind::Baseline(vec![1])),
            frame(2, 10, 1, OutputFrameKind::Baseline(vec![7])),
        ],
    ));
    ledger.apply_result(&result(2, vec![frame(1, 10, 2, OutputFrameKind::Delta(vec![1, 2]))]));
    ledger.assert_current_equals(1, &vec![1, 2]).unwrap();
    ledger.assert_delta_sequence_matches_rebaseline(1, &vec![1, 2]).unwrap();
    assert!(ledger.assert_current_equals(1, &vec![1]).is_err());
    assert_eq!(ledger.frame_trace().len(), 3);
    assert_eq!(
        ledger.frame_trace()[2],
        OutputFrameTrace {
            output_key: 1,
            scope: 10,
            transaction_id: 2,
            revision: 2,
            kind: OutputFrameKindTrace::Delta,
        }
    );
    assert_eq!(ledger.frame_records().len(), 3);
    assert_eq!(ledger.snapshot(2).unwrap().state, Some(vec![7]));
    ledger.assert_revision_monotonic().unwrap();
    ledger.assert_no_frame_for_closed_scope_except_terminal().unwrap();
    ledger.assert_consumer_needs_no_hidden_graph_state().unwrap();
}

#[test]
fn consumer_ledger_refuses_frames_from_closed_scopes() {
    let mut ledger = OutputLedger::new();
    ledger.apply_frame(&frame(1, 10, 1, OutputFrameKind::Baseline(vec![1])));
    ledger.close_scope(10);
    ledger.apply_frame(&frame(1, 10, 2, OutputFrameKind::Delta(vec![9])));
    ledger.assert_current_equals(1, &vec![1]).unwrap();
    assert!(matches!(
        ledger.assert_no_frame_for_closed_scope_except_terminal(),
        Err(OutputLedgerError::FrameAfterClosedScope { context }) if context.revision == 2
    ));
    ledger.assert_revision_monotonic().unwrap();
    assert!(ledger.assert_consumer_needs_no_hidden_graph_state().is_err());
    ledger.apply_frame(&frame(1, 10, 3, OutputFrameKind::Clear));
    ledger.assert_cleared(1).unwrap();
    assert_eq!(ledger.errors().len(), 1);
}

#[test]
fn consumer_ledger_reports_regressions_and_uncleared_closed_outputs() {
    let mut ledger = OutputLedger::new();
    ledger.apply_frame(&frame(3, 20, 5, OutputFrameKind::Baseline(vec![1])));
    ledger.apply_frame(&frame(1, 20, 5, OutputFrameKind::Baseline(vec![2])));
    ledger.apply_frame(&frame(2, 30, 5, OutputFrameKind::Baseline(vec![3])));
    ledger.apply_frame(&frame(3, 20, 4, OutputFrameKind::Delta(vec![4])));
    assert!(matches!(
        ledger.assert_revision_monotonic(),
        Err(OutputLedgerError::RevisionRegression { previous: 5, .. })
    ));
    match ledger.assert_closed_scope_cleared(20) {
        Err(OutputLedgerError::ClosedScopeNotCleared { scope, outputs, contexts }) => {
            assert_eq!(scope, 20);
            assert_eq!(outputs, vec![1, 3]);
            assert_eq!(contexts.len(), 2);
            assert_eq!(contexts[1].revision, 4);
        }
        other => panic!("unexpected {other:?}"),
    }
    ledger.assert_closed_scope_cleared(40).unwrap();
    assert!(matches!(
        ledger.assert_cleared(2),
        Err(OutputLedgerError::NotCleared { key: 2, context: Some(_) })
    ));
    assert!(matches!(
        ledger.assert_cleared(9),
        Err(OutputLedgerError::NotCleared { key: 9, context: None })
    ));
}
