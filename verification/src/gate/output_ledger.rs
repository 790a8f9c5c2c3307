//! A fake consumer of output frames: it keeps each output's current value
//! and checks that revisions never go back and that closed scopes only
//! clear.
use vstd::prelude::*;
use crate::dup::{Dup, SameView};
use crate::gate::plan::{OutputFrame, OutputFrameKind, OutputFrameKindView, OutputFrameView, TransactionResult};
use crate::gate::scopes::{NumMap, ScopeSet};

verus! {

/// A consumer's view of one output.
#[derive(Debug)]
pub struct OutputSnapshot<O> {
    /// The owning scope.
    pub scope: u64,
    /// The transaction of the last frame.
    pub transaction_id: u64,
    /// The revision of the last frame.
    pub revision: u64,
    /// The current value; none after a clear.
    pub state: Option<O>,
    /// Whether the last frame cleared the output.
    pub cleared: bool,
}

/// What an `OutputSnapshot` holds, as mathematical values.
pub struct OutputSnapshotView<V> {
    /// The owning scope.
    pub scope: u64,
    /// The transaction of the last frame.
    pub transaction_id: u64,
    /// The revision of the last frame.
    pub revision: u64,
    /// The current value; none after a clear.
    pub state: Option<V>,
    /// Whether the last frame cleared the output.
    pub cleared: bool,
}

impl<O: DeepView> DeepView for OutputSnapshot<O> {
    type V = OutputSnapshotView<O::V>;

    open spec fn deep_view(&self) -> OutputSnapshotView<O::V> {
        OutputSnapshotView {
            scope: self.scope,
            transaction_id: self.transaction_id,
            revision: self.revision,
            state: self.state.deep_view(),
            cleared: self.cleared,
        }
    }
}

/// A failed output check.
#[derive(Clone, Copy, Debug, PartialEq, Eq, Structural)]
pub enum OutputLedgerError {
    /// A frame's revision was lower than the output's last one.
    RevisionRegression {
        /// The output.
        key: u64,
        /// The last revision.
        previous: u64,
        /// The frame's revision.
        next: u64,
    },
    /// The output is not cleared.
    NotCleared(u64),
    /// A closed scope emitted a frame other than a clear.
    FrameAfterClosedScope {
        /// The output.
        key: u64,
        /// The closed scope.
        scope: u64,
    },
    /// The output's value is not the expected one.
    StateMismatch(u64),
}

/// A fake consumer of output frames.
#[derive(Debug)]
pub struct OutputLedger<O: DeepView> {
    outputs: NumMap<OutputSnapshot<O>>,
    closed_scopes: ScopeSet,
    errors: Vec<OutputLedgerError>,
}

/// What an `OutputLedger` holds, as mathematical values.
pub struct OutputLedgerView<V> {
    /// Each output's consumer view.
    pub outputs: Map<u64, OutputSnapshotView<V>>,
    /// Scopes known to be closed.
    pub closed_scopes: Set<u64>,
    /// Problems seen, in order.
    pub errors: Seq<OutputLedgerError>,
}

impl<O: DeepView> View for OutputLedger<O> {
    type V = OutputLedgerView<O::V>;

    closed spec fn view(&self) -> OutputLedgerView<O::V> {
        OutputLedgerView { outputs: self.outputs@, closed_scopes: self.closed_scopes@, errors: self.errors@ }
    }
}

/// The value a frame leaves: its payload, or none for a clear.
pub open spec fn frame_state<V>(k: OutputFrameKindView<V>) -> Option<V> {
    match k {
        OutputFrameKindView::Baseline(v) => Some(v),
        OutputFrameKindView::Delta(v) => Some(v),
        OutputFrameKindView::Rebaseline(v) => Some(v),
        OutputFrameKindView::Clear => None,
    }
}

/// The consumer after one frame: it records a problem when a closed scope
/// emits anything but a clear and when the revision goes back, then takes
/// the frame's scope, transaction, revision and value.
pub open spec fn apply_frame_spec<V>(l: OutputLedgerView<V>, f: OutputFrameView<V>) -> OutputLedgerView<V> {
    let is_clear = f.kind is Clear;
    let e1 = if l.closed_scopes.contains(f.scope) && !is_clear {
        l.errors.push(OutputLedgerError::FrameAfterClosedScope { key: f.output_key, scope: f.scope })
    } else {
        l.errors
    };
    let e2 = if l.outputs.contains_key(f.output_key) && f.revision < l.outputs[f.output_key].revision {
        e1.push(
            OutputLedgerError::RevisionRegression {
                key: f.output_key,
                previous: l.outputs[f.output_key].revision,
                next: f.revision,
            },
        )
    } else {
        e1
    };
    OutputLedgerView {
        outputs: l.outputs.insert(
            f.output_key,
            OutputSnapshotView {
                scope: f.scope,
                transaction_id: f.transaction_id,
                revision: f.revision,
                state: frame_state(f.kind),
                cleared: is_clear,
            },
        ),
        closed_scopes: l.closed_scopes,
        errors: e2,
    }
}

/// The consumer after the frames, in order.
pub open spec fn apply_frames_spec<V>(l: OutputLedgerView<V>, fs: Seq<OutputFrameView<V>>) -> OutputLedgerView<V>
    decreases fs.len(),
{
    if fs.len() == 0 {
        l
    } else {
        apply_frame_spec(apply_frames_spec(l, fs.drop_last()), fs.last())
    }
}

/// After a frame, the consumer holds exactly the frame's value for its
/// output, and a frame that keeps the revision order and does not come
/// from a closed scope records no problem.
pub proof fn law_frame_sets_current_value<V>(l: OutputLedgerView<V>, f: OutputFrameView<V>)
    ensures
        apply_frame_spec(l, f).outputs[f.output_key].state == frame_state(f.kind),
        apply_frame_spec(l, f).outputs[f.output_key].cleared == (f.kind is Clear),
        (!l.closed_scopes.contains(f.scope) || f.kind is Clear) && (!l.outputs.contains_key(f.output_key)
            || l.outputs[f.output_key].revision <= f.revision) ==> apply_frame_spec(l, f).errors == l.errors,
{
}

impl<O: DeepView + Dup + SameView> OutputLedger<O> {
    /// An empty consumer.
    pub fn new() -> (r: Self)
        ensures
            r@.outputs == Map::<u64, OutputSnapshotView<O::V>>::empty(),
            r@.closed_scopes == Set::<u64>::empty(),
            r@.errors == Seq::<OutputLedgerError>::empty(),
    {
        OutputLedger { outputs: NumMap::new(), closed_scopes: ScopeSet::new(), errors: Vec::new() }
    }

    /// Records that a scope is closed.
    pub fn close_scope(&mut self, scope: u64)
        ensures
            final(self)@ == (OutputLedgerView { closed_scopes: old(self)@.closed_scopes.insert(scope), ..old(self)@ }),
    {
        self.closed_scopes.insert(scope);
    }

    /// Applies one frame.
    pub fn apply_frame(&mut self, frame: &OutputFrame<O>)
        ensures
            final(self)@ == apply_frame_spec(old(self)@, frame.deep_view()),
    {
        let is_clear = match &frame.kind {
            OutputFrameKind::Clear => true,
            _ => false,
        };
        if self.closed_scopes.contains(frame.scope) && !is_clear {
            self.errors.push(OutputLedgerError::FrameAfterClosedScope { key: frame.output_key, scope: frame.scope });
        }
        match self.outputs.get(frame.output_key) {
            Some(previous) => {
                if frame.revision < previous.revision {
                    let p = previous.revision;
                    self.errors.push(
                        OutputLedgerError::RevisionRegression { key: frame.output_key, previous: p, next: frame.revision },
                    );
                }
            },
            None => {},
        }
        let state = match &frame.kind {
            OutputFrameKind::Baseline(v) => Some(v.dup()),
            OutputFrameKind::Delta(v) => Some(v.dup()),
            OutputFrameKind::Rebaseline(v) => Some(v.dup()),
            OutputFrameKind::Clear => None,
        };
        self.outputs.insert(
            frame.output_key,
            OutputSnapshot {
                scope: frame.scope,
                transaction_id: frame.transaction_id,
                revision: frame.revision,
                state,
                cleared: is_clear,
            },
        );
    }

    /// Applies the frames of a committed transaction, in order.
    pub fn apply_result(&mut self, result: &TransactionResult<O>)
        ensures
            final(self)@ == apply_frames_spec(old(self)@, result.output_frames.deep_view()),
    {
        let ghost fs = result.output_frames.deep_view();
        let mut i: usize = 0;
        assert(fs.take(0) =~= Seq::<OutputFrameView<O::V>>::empty());
        while i < result.output_frames.len()
            invariant
                i <= fs.len(),
                fs == result.output_frames.deep_view(),
                self@ == apply_frames_spec(old(self)@, fs.take(i as int)),
            decreases fs.len() - i,
        {
            self.apply_frame(&result.output_frames[i]);
            assert(fs.take(i + 1).drop_last() =~= fs.take(i as int));
            i = i + 1;
        }
        assert(fs.take(fs.len() as int) =~= fs);
    }

    /// The consumer's view of an output.
    pub fn snapshot(&self, key: u64) -> (r: Option<&OutputSnapshot<O>>)
        ensures
            r is Some == self@.outputs.contains_key(key),
            r matches Some(s) ==> s.deep_view() == self@.outputs[key],
    {
        self.outputs.get(key)
    }

    /// Checks that no problem was seen; otherwise returns the first.
    pub fn assert_revision_monotonic(&self) -> (r: Result<(), OutputLedgerError>)
        ensures
            r is Ok <==> self@.errors.len() == 0,
            r matches Err(e) ==> e == self@.errors[0],
    {
        if self.errors.len() == 0 {
            Ok(())
        } else {
            Err(self.errors[0])
        }
    }

    /// Checks that the output is cleared.
    pub fn assert_cleared(&self, key: u64) -> (r: Result<(), OutputLedgerError>)
        ensures
            r is Ok <==> self@.outputs.contains_key(key) && self@.outputs[key].cleared,
            r matches Err(e) ==> e == OutputLedgerError::NotCleared(key),
    {
        match self.outputs.get(key) {
            Some(s) => {
                if s.cleared {
                    Ok(())
                } else {
                    Err(OutputLedgerError::NotCleared(key))
                }
            },
            None => Err(OutputLedgerError::NotCleared(key)),
        }
    }

    /// Checks that the output's current value is `expected`.
    pub fn assert_current_equals(&self, key: u64, expected: &O) -> (r: Result<(), OutputLedgerError>)
        ensures
            r is Ok <==> self@.outputs.contains_key(key) && self@.outputs[key].state == Some(expected.deep_view()),
            r matches Err(e) ==> e == OutputLedgerError::StateMismatch(key),
    {
        match self.outputs.get(key) {
            Some(s) => match &s.state {
                Some(v) => {
                    if v.same_view(expected) {
                        Ok(())
                    } else {
                        Err(OutputLedgerError::StateMismatch(key))
                    }
                },
                None => Err(OutputLedgerError::StateMismatch(key)),
            },
            None => Err(OutputLedgerError::StateMismatch(key)),
        }
    }
}

} // verus!
