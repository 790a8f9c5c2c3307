//! A fake consumer of output frames that keeps, beside each output's
//! current value, the structural trace of every frame it was handed and
//! the problems it saw: frames from closed scopes (which it refuses) and
//! revisions that go back.
use vstd::prelude::*;
use crate::dup::{Dup, SameView};
use crate::gate::plan::{OutputFrame, OutputFrameKind, OutputFrameKindView, OutputFrameView, TransactionResult};
use crate::gate::scopes::{increasing, NumMap, ScopeSet};

verus! {

/// The kind of a frame, without its payload.
#[derive(Clone, Copy, Debug, PartialEq, Eq, Structural)]
pub enum OutputFrameKindTrace {
    /// The first value of an output.
    Baseline,
    /// A changed value.
    Delta,
    /// A value re-sent in full.
    Rebaseline,
    /// The output went away.
    Clear,
}

/// A frame without its payload.
#[derive(Clone, Copy, Debug, PartialEq, Eq, Structural)]
pub struct OutputFrameTrace {
    /// The output.
    pub output_key: u64,
    /// The scope that owns the output.
    pub scope: u64,
    /// The transaction that emitted the frame.
    pub transaction_id: u64,
    /// The revision of the frame.
    pub revision: u64,
    /// The kind of the frame.
    pub kind: OutputFrameKindTrace,
}

/// The kind of a frame, without its payload.
pub open spec fn kind_trace<V>(k: OutputFrameKindView<V>) -> OutputFrameKindTrace {
    match k {
        OutputFrameKindView::Baseline(_) => OutputFrameKindTrace::Baseline,
        OutputFrameKindView::Delta(_) => OutputFrameKindTrace::Delta,
        OutputFrameKindView::Rebaseline(_) => OutputFrameKindTrace::Rebaseline,
        OutputFrameKindView::Clear => OutputFrameKindTrace::Clear,
    }
}

/// A frame without its payload.
pub open spec fn frame_trace_of<V>(f: OutputFrameView<V>) -> OutputFrameTrace {
    OutputFrameTrace {
        output_key: f.output_key,
        scope: f.scope,
        transaction_id: f.transaction_id,
        revision: f.revision,
        kind: kind_trace(f.kind),
    }
}

/// The structural trace of a frame.
pub fn output_frame_trace<O: DeepView>(frame: &OutputFrame<O>) -> (r: OutputFrameTrace)
    ensures
        r == frame_trace_of(frame.deep_view()),
{
    let kind = match &frame.kind {
        OutputFrameKind::Baseline(_) => OutputFrameKindTrace::Baseline,
        OutputFrameKind::Delta(_) => OutputFrameKindTrace::Delta,
        OutputFrameKind::Rebaseline(_) => OutputFrameKindTrace::Rebaseline,
        OutputFrameKind::Clear => OutputFrameKindTrace::Clear,
    };
    OutputFrameTrace {
        output_key: frame.output_key,
        scope: frame.scope,
        transaction_id: frame.transaction_id,
        revision: frame.revision,
        kind,
    }
}

/// A consumer's view of one output.
#[derive(Debug)]
pub struct OutputSnapshot<O> {
    /// The owning scope.
    pub scope: u64,
    /// The transaction of the last frame.
    pub transaction_id: u64,
    /// The revision of the last frame.
    pub revision: u64,
    /// The current value; none after a clear.
    pub state: Option<O>,
    /// Whether the last frame cleared the output.
    pub cleared: bool,
    /// The last frame, without its payload.
    pub frame: OutputFrameTrace,
}

/// What an `OutputSnapshot` holds, as mathematical values.
pub struct OutputSnapshotView<V> {
    /// The owning scope.
    pub scope: u64,
    /// The transaction of the last frame.
    pub transaction_id: u64,
    /// The revision of the last frame.
    pub revision: u64,
    /// The current value; none after a clear.
    pub state: Option<V>,
    /// Whether the last frame cleared the output.
    pub cleared: bool,
    /// The last frame, without its payload.
    pub frame: OutputFrameTrace,
}

impl<O: DeepView> DeepView for OutputSnapshot<O> {
    type V = OutputSnapshotView<O::V>;

    open spec fn deep_view(&self) -> OutputSnapshotView<O::V> {
        OutputSnapshotView {
            scope: self.scope,
            transaction_id: self.transaction_id,
            revision: self.revision,
            state: self.state.deep_view(),
            cleared: self.cleared,
            frame: self.frame,
        }
    }
}

/// A failed output check.
#[derive(Debug)]
pub enum OutputLedgerError {
    /// A frame's revision was lower than the output's last one.
    RevisionRegression {
        /// The frame.
        context: OutputFrameTrace,
        /// The output's last revision.
        previous: u64,
    },
    /// The output is not cleared.
    NotCleared {
        /// The output.
        key: u64,
        /// The output's last frame, if any.
        context: Option<OutputFrameTrace>,
    },
    /// A closed scope emitted a frame other than a clear.
    FrameAfterClosedScope {
        /// The frame.
        context: OutputFrameTrace,
    },
    /// Outputs of a closed scope are not cleared.
    ClosedScopeNotCleared {
        /// The closed scope.
        scope: u64,
        /// The outputs not cleared, in increasing order.
        outputs: Vec<u64>,
        /// Their last frames.
        contexts: Vec<OutputFrameTrace>,
    },
    /// The output's value is not the expected one.
    StateMismatch {
        /// The output.
        key: u64,
        /// The output's last frame, if any.
        context: Option<OutputFrameTrace>,
    },
}

/// What an `OutputLedgerError` holds, as mathematical values.
pub enum OutputLedgerErrorView {
    /// A frame's revision was lower than the output's last one.
    RevisionRegression { context: OutputFrameTrace, previous: u64 },
    /// The output is not cleared.
    NotCleared { key: u64, context: Option<OutputFrameTrace> },
    /// A closed scope emitted a frame other than a clear.
    FrameAfterClosedScope { context: OutputFrameTrace },
    /// Outputs of a closed scope are not cleared.
    ClosedScopeNotCleared { scope: u64, outputs: Seq<u64>, contexts: Seq<OutputFrameTrace> },
    /// The output's value is not the expected one.
    StateMismatch { key: u64, context: Option<OutputFrameTrace> },
}

impl DeepView for OutputLedgerError {
    type V = OutputLedgerErrorView;

    open spec fn deep_view(&self) -> OutputLedgerErrorView {
        match self {
            OutputLedgerError::RevisionRegression { context, previous } => OutputLedgerErrorView::RevisionRegression {
                context: *context,
                previous: *previous,
            },
            OutputLedgerError::NotCleared { key, context } => OutputLedgerErrorView::NotCleared {
                key: *key,
                context: *context,
            },
            OutputLedgerError::FrameAfterClosedScope { context } => OutputLedgerErrorView::FrameAfterClosedScope {
                context: *context,
            },
            OutputLedgerError::ClosedScopeNotCleared { scope, outputs, contexts } => {
                OutputLedgerErrorView::ClosedScopeNotCleared { scope: *scope, outputs: outputs@, contexts: contexts@ }
            },
            OutputLedgerError::StateMismatch { key, context } => OutputLedgerErrorView::StateMismatch {
                key: *key,
                context: *context,
            },
        }
    }
}

impl Dup for OutputLedgerError {
    fn dup(&self) -> (r: Self) {
        match self {
            OutputLedgerError::RevisionRegression { context, previous } => OutputLedgerError::RevisionRegression {
                context: *context,
                previous: *previous,
            },
            OutputLedgerError::NotCleared { key, context } => OutputLedgerError::NotCleared {
                key: *key,
                context: *context,
            },
            OutputLedgerError::FrameAfterClosedScope { context } => OutputLedgerError::FrameAfterClosedScope {
                context: *context,
            },
            OutputLedgerError::ClosedScopeNotCleared { scope, outputs, contexts } => {
                OutputLedgerError::ClosedScopeNotCleared {
                    scope: *scope,
                    outputs: outputs.clone(),
                    contexts: contexts.clone(),
                }
            },
            OutputLedgerError::StateMismatch { key, context } => OutputLedgerError::StateMismatch {
                key: *key,
                context: *context,
            },
        }
    }
}

/// A fake consumer of output frames.
#[derive(Debug)]
pub struct OutputLedger<O: DeepView> {
    outputs: NumMap<OutputSnapshot<O>>,
    closed_scopes: ScopeSet,
    frames: Vec<OutputFrameTrace>,
    frame_records: Vec<OutputFrame<O>>,
    errors: Vec<OutputLedgerError>,
}

/// What an `OutputLedger` holds, as mathematical values.
pub struct OutputLedgerView<V> {
    /// Each output's consumer view.
    pub outputs: Map<u64, OutputSnapshotView<V>>,
    /// Scopes known to be closed.
    pub closed_scopes: Set<u64>,
    /// Every frame handed over, without payload, in order.
    pub frames: Seq<OutputFrameTrace>,
    /// Every frame handed over, in order.
    pub frame_records: Seq<OutputFrameView<V>>,
    /// Problems seen, in order.
    pub errors: Seq<OutputLedgerErrorView>,
}

impl<O: DeepView> View for OutputLedger<O> {
    type V = OutputLedgerView<O::V>;

    closed spec fn view(&self) -> OutputLedgerView<O::V> {
        OutputLedgerView {
            outputs: self.outputs@,
            closed_scopes: self.closed_scopes@,
            frames: self.frames@,
            frame_records: self.frame_records.deep_view(),
            errors: self.errors.deep_view(),
        }
    }
}

/// The value a frame leaves: its payload, or none for a clear.
pub open spec fn frame_state<V>(k: OutputFrameKindView<V>) -> Option<V> {
    match k {
        OutputFrameKindView::Baseline(v) => Some(v),
        OutputFrameKindView::Delta(v) => Some(v),
        OutputFrameKindView::Rebaseline(v) => Some(v),
        OutputFrameKindView::Clear => None,
    }
}

/// The consumer after one frame: it logs the frame; a frame other than a
/// clear from a closed scope is refused with a problem; otherwise a
/// revision lower than the output's last one is a problem, and the output
/// takes the frame's scope, transaction, revision and value.
pub open spec fn apply_frame_spec<V>(l: OutputLedgerView<V>, f: OutputFrameView<V>) -> OutputLedgerView<V> {
    let t = frame_trace_of(f);
    let is_clear = f.kind is Clear;
    let logged = OutputLedgerView { frames: l.frames.push(t), frame_records: l.frame_records.push(f), ..l };
    if l.closed_scopes.contains(f.scope) && !is_clear {
        OutputLedgerView {
            errors: l.errors.push(OutputLedgerErrorView::FrameAfterClosedScope { context: t }),
            ..logged
        }
    } else {
        let errors = if l.outputs.contains_key(f.output_key) && f.revision < l.outputs[f.output_key].revision {
            l.errors.push(
                OutputLedgerErrorView::RevisionRegression { context: t, previous: l.outputs[f.output_key].revision },
            )
        } else {
            l.errors
        };
        OutputLedgerView {
            outputs: l.outputs.insert(
                f.output_key,
                OutputSnapshotView {
                    scope: f.scope,
                    transaction_id: f.transaction_id,
                    revision: f.revision,
                    state: frame_state(f.kind),
                    cleared: is_clear,
                    frame: t,
                },
            ),
            errors,
            ..logged
        }
    }
}

/// The consumer after the frames, in order.
pub open spec fn apply_frames_spec<V>(l: OutputLedgerView<V>, fs: Seq<OutputFrameView<V>>) -> OutputLedgerView<V>
    decreases fs.len(),
{
    if fs.len() == 0 {
        l
    } else {
        apply_frame_spec(apply_frames_spec(l, fs.drop_last()), fs.last())
    }
}

/// A frame other than a clear from a closed scope is refused: the
/// outputs stay as they were and the problem is recorded; any other frame
/// leaves its output holding exactly the frame's value, and records no
/// problem when its revision does not go back.
pub proof fn law_closed_scope_frames_are_refused<V>(l: OutputLedgerView<V>, f: OutputFrameView<V>)
    ensures
        l.closed_scopes.contains(f.scope) && !(f.kind is Clear) ==> apply_frame_spec(l, f).outputs == l.outputs
            && apply_frame_spec(l, f).errors == l.errors.push(
            OutputLedgerErrorView::FrameAfterClosedScope { context: frame_trace_of(f) },
        ),
        !l.closed_scopes.contains(f.scope) || f.kind is Clear ==> apply_frame_spec(l, f).outputs[f.output_key].state
            == frame_state(f.kind) && apply_frame_spec(l, f).outputs[f.output_key].cleared == (f.kind is Clear),
        (!l.closed_scopes.contains(f.scope) || f.kind is Clear) && (!l.outputs.contains_key(f.output_key)
            || l.outputs[f.output_key].revision <= f.revision) ==> apply_frame_spec(l, f).errors == l.errors,
        apply_frame_spec(l, f).frames == l.frames.push(frame_trace_of(f)),
{
}

/// The first problem of the kind, if any: `Ok` when there is none.
pub open spec fn first_of(errors: Seq<OutputLedgerErrorView>, regression: bool, r: Result<(), OutputLedgerError>) -> bool {
    let is_kind = |e: OutputLedgerErrorView|
        if regression {
            e is RevisionRegression
        } else {
            e is FrameAfterClosedScope
        };
    match r {
        Ok(_) => forall|i: int| 0 <= i < errors.len() ==> !is_kind(#[trigger] errors[i]),
        Err(e) => exists|i: int|
            0 <= i < errors.len() && errors[i] == e.deep_view() && is_kind(e.deep_view()) && forall|j: int|
                0 <= j < i ==> !is_kind(#[trigger] errors[j]),
    }
}

/// The outputs of `scope` that are not cleared.
pub open spec fn uncleared_of<V>(outputs: Map<u64, OutputSnapshotView<V>>, scope: u64) -> Set<u64> {
    outputs.dom().filter(|k: u64| outputs[k].scope == scope && !outputs[k].cleared)
}

/// The output's last frame, if it has one.
pub open spec fn last_frame<V>(outputs: Map<u64, OutputSnapshotView<V>>, key: u64) -> Option<OutputFrameTrace> {
    if outputs.contains_key(key) {
        Some(outputs[key].frame)
    } else {
        None
    }
}

impl<O: DeepView + Dup + SameView> OutputLedger<O> {
    /// An empty consumer.
    pub fn new() -> (r: Self)
        ensures
            r@.outputs == Map::<u64, OutputSnapshotView<O::V>>::empty(),
            r@.closed_scopes == Set::<u64>::empty(),
            r@.frames == Seq::<OutputFrameTrace>::empty(),
            r@.frame_records == Seq::<OutputFrameView<O::V>>::empty(),
            r@.errors == Seq::<OutputLedgerErrorView>::empty(),
    {
        let r = OutputLedger {
            outputs: NumMap::new(),
            closed_scopes: ScopeSet::new(),
            frames: Vec::new(),
            frame_records: Vec::new(),
            errors: Vec::new(),
        };
        assert(r.frame_records.deep_view() =~= Seq::<OutputFrameView<O::V>>::empty());
        assert(r.errors.deep_view() =~= Seq::<OutputLedgerErrorView>::empty());
        r
    }

    /// Records that a scope is closed.
    pub fn close_scope(&mut self, scope: u64)
        ensures
            final(self)@ == (OutputLedgerView { closed_scopes: old(self)@.closed_scopes.insert(scope), ..old(self)@ }),
    {
        self.closed_scopes.insert(scope);
    }

    /// Applies one frame.
    pub fn apply_frame(&mut self, frame: &OutputFrame<O>)
        ensures
            final(self)@ == apply_frame_spec(old(self)@, frame.deep_view()),
    {
        let ghost l = self@;
        let trace = output_frame_trace(frame);
        self.frames.push(trace);
        let ghost old_records = self.frame_records.deep_view();
        self.frame_records.push(frame.dup());
        assert(self.frame_records.deep_view() =~= old_records.push(frame.deep_view()));
        let is_clear = match &frame.kind {
            OutputFrameKind::Clear => true,
            _ => false,
        };
        let ghost old_errors = self.errors.deep_view();
        if self.closed_scopes.contains(frame.scope) && !is_clear {
            self.errors.push(OutputLedgerError::FrameAfterClosedScope { context: trace });
            assert(self.errors.deep_view() =~= old_errors.push(
                OutputLedgerErrorView::FrameAfterClosedScope { context: trace },
            ));
            return;
        }
        match self.outputs.get(frame.output_key) {
            Some(previous) => {
                if frame.revision < previous.revision {
                    let p = previous.revision;
                    self.errors.push(OutputLedgerError::RevisionRegression { context: trace, previous: p });
                    assert(self.errors.deep_view() =~= old_errors.push(
                        OutputLedgerErrorView::RevisionRegression { context: trace, previous: p },
                    ));
                }
            },
            None => {},
        }
        let state = match &frame.kind {
            OutputFrameKind::Baseline(v) => Some(v.dup()),
            OutputFrameKind::Delta(v) => Some(v.dup()),
            OutputFrameKind::Rebaseline(v) => Some(v.dup()),
            OutputFrameKind::Clear => None,
        };
        self.outputs.insert(
            frame.output_key,
            OutputSnapshot {
                scope: frame.scope,
                transaction_id: frame.transaction_id,
                revision: frame.revision,
                state,
                cleared: is_clear,
                frame: trace,
            },
        );
    }

    /// Applies the frames of a committed transaction, in order.
    pub fn apply_result(&mut self, result: &TransactionResult<O>)
        ensures
            final(self)@ == apply_frames_spec(old(self)@, result.output_frames.deep_view()),
    {
        let ghost fs = result.output_frames.deep_view();
        let mut i: usize = 0;
        assert(fs.take(0) =~= Seq::<OutputFrameView<O::V>>::empty());
        while i < result.output_frames.len()
            invariant
                i <= fs.len(),
                fs == result.output_frames.deep_view(),
                self@ == apply_frames_spec(old(self)@, fs.take(i as int)),
            decreases fs.len() - i,
        {
            self.apply_frame(&result.output_frames[i]);
            assert(fs.take(i + 1).drop_last() =~= fs.take(i as int));
            i = i + 1;
        }
        assert(fs.take(fs.len() as int) =~= fs);
    }

    /// The consumer's view of an output.
    pub fn snapshot(&self, key: u64) -> (r: Option<&OutputSnapshot<O>>)
        ensures
            r is Some == self@.outputs.contains_key(key),
            r matches Some(s) ==> s.deep_view() == self@.outputs[key],
    {
        self.outputs.get(key)
    }

    /// The problems seen, in order.
    pub fn errors(&self) -> (r: &[OutputLedgerError])
        ensures
            r.deep_view() == self@.errors,
    {
        self.errors.as_slice()
    }

    /// Every frame handed over, without payload, in order.
    pub fn frame_trace(&self) -> (r: &[OutputFrameTrace])
        ensures
            r@ == self@.frames,
    {
        self.frames.as_slice()
    }

    /// Every frame handed over, in order.
    pub fn frame_records(&self) -> (r: &[OutputFrame<O>])
        ensures
            r.deep_view() == self@.frame_records,
    {
        self.frame_records.as_slice()
    }

    fn first_error(&self, regression: bool) -> (r: Result<(), OutputLedgerError>)
        ensures
            first_of(self@.errors, regression, r),
    {
        let ghost es = self@.errors;
        let ghost is_kind = |e: OutputLedgerErrorView|
            if regression {
                e is RevisionRegression
            } else {
                e is FrameAfterClosedScope
            };
        let mut i: usize = 0;
        while i < self.errors.len()
            invariant
                es == self@.errors,
                es == self.errors.deep_view(),
                i <= es.len(),
                is_kind == (|e: OutputLedgerErrorView|
                    if regression {
                        e is RevisionRegression
                    } else {
                        e is FrameAfterClosedScope
                    }),
                forall|j: int| 0 <= j < i ==> !is_kind(#[trigger] es[j]),
            decreases es.len() - i,
        {
            let e = &self.errors[i];
            assert(es[i as int] == e.deep_view());
            let hit = match e {
                OutputLedgerError::RevisionRegression { .. } => regression,
                OutputLedgerError::FrameAfterClosedScope { .. } => !regression,
                _ => false,
            };
            if hit {
                return Err(e.dup());
            }
            i = i + 1;
        }
        Ok(())
    }

    /// Checks that no revision went back; otherwise returns the first
    /// regression.
    pub fn assert_revision_monotonic(&self) -> (r: Result<(), OutputLedgerError>)
        ensures
            first_of(self@.errors, true, r),
    {
        self.first_error(true)
    }

    /// Checks that closed scopes emitted nothing but clears; otherwise
    /// returns the first such frame's problem.
    pub fn assert_no_frame_for_closed_scope_except_terminal(&self) -> (r: Result<(), OutputLedgerError>)
        ensures
            first_of(self@.errors, false, r),
    {
        self.first_error(false)
    }

    /// Checks that no problem was seen; otherwise returns the first.
    pub fn assert_consumer_needs_no_hidden_graph_state(&self) -> (r: Result<(), OutputLedgerError>)
        ensures
            r is Ok <==> self@.errors.len() == 0,
            r matches Err(e) ==> e.deep_view() == self@.errors[0],
    {
        if self.errors.len() == 0 {
            Ok(())
        } else {
            assert(self.errors.deep_view()[0] == self.errors@[0].deep_view());
            Err(self.errors[0].dup())
        }
    }

    /// Checks that every output of a closed scope is cleared; otherwise
    /// names, in increasing order, those that are not, with their last
    /// frames.
    pub fn assert_closed_scope_cleared(&self, scope: u64) -> (r: Result<(), OutputLedgerError>)
        ensures
            r is Ok <==> uncleared_of(self@.outputs, scope) == Set::<u64>::empty(),
            r matches Err(e) ==> (e.deep_view() matches OutputLedgerErrorView::ClosedScopeNotCleared {
                scope: s,
                outputs,
                contexts,
            } && s == scope && increasing(outputs) && outputs.to_set() == uncleared_of(self@.outputs, scope)
                && contexts == outputs.map_values(|k: u64| self@.outputs[k].frame)),
    {
        self.outputs.lemma_keys();
        let ghost m = self@.outputs;
        let ghost keys = self.outputs.keys();
        let n = self.outputs.len();
        let mut set = ScopeSet::new();
        let mut i: usize = 0;
        while i < n
            invariant
                n == keys.len(),
                keys == self.outputs.keys(),
                m == self@.outputs,
                i <= n,
                set@ == Set::new(|k: u64| keys.take(i as int).contains(k) && m[k].scope == scope && !m[k].cleared),
            decreases n - i,
        {
            let (k, snap) = self.outputs.entry_at(i);
            let ghost before = set@;
            if snap.scope == scope && !snap.cleared {
                set.insert(k);
            }
            proof {
                assert(snap.deep_view() == m[k]);
                let t = keys.take(i as int);
                assert(keys.take(i + 1) =~= t.push(k));
                assert forall|x: u64| #[trigger] t.push(k).contains(x) <==> (t.contains(x) || x == k) by {
                    if t.contains(x) {
                        let a = choose|a: int| 0 <= a < t.len() && t[a] == x;
                        assert(t.push(k)[a] == x);
                    }
                    if x == k {
                        assert(t.push(k)[t.len() as int] == k);
                    }
                    if t.push(k).contains(x) && x != k {
                        let a = choose|a: int| 0 <= a < t.len() + 1 && t.push(k)[a] == x;
                        assert(t[a] == x);
                    }
                }
                assert(set@ =~= Set::new(
                    |x: u64| keys.take(i + 1).contains(x) && m[x].scope == scope && !m[x].cleared,
                ));
            }
            i = i + 1;
        }
        proof {
            assert(keys.take(n as int) =~= keys);
            assert(set@ =~= uncleared_of(m, scope));
        }
        if set.is_empty() {
            return Ok(());
        }
        set.lemma_elems();
        let outputs = set.to_vec();
        let mut contexts: Vec<OutputFrameTrace> = Vec::new();
        let mut j: usize = 0;
        while j < outputs.len()
            invariant
                m == self@.outputs,
                j <= outputs@.len(),
                outputs@.to_set() == uncleared_of(m, scope),
                contexts@ == outputs@.take(j as int).map_values(|k: u64| m[k].frame),
            decreases outputs@.len() - j,
        {
            let k = outputs[j];
            assert(outputs@.to_set().contains(k));
            match self.outputs.get(k) {
                Some(snap) => {
                    contexts.push(snap.frame);
                },
                None => {},
            }
            assert(outputs@.take(j + 1) =~= outputs@.take(j as int).push(k));
            assert(contexts@ =~= outputs@.take(j + 1).map_values(|k: u64| m[k].frame));
            j = j + 1;
        }
        assert(outputs@.take(outputs@.len() as int) =~= outputs@);
        Err(OutputLedgerError::ClosedScopeNotCleared { scope, outputs, contexts })
    }

    /// Checks that the output is cleared.
    pub fn assert_cleared(&self, key: u64) -> (r: Result<(), OutputLedgerError>)
        ensures
            r is Ok <==> self@.outputs.contains_key(key) && self@.outputs[key].cleared,
            r matches Err(e) ==> e.deep_view() == (OutputLedgerErrorView::NotCleared {
                key,
                context: last_frame(self@.outputs, key),
            }),
    {
        match self.outputs.get(key) {
            Some(s) => {
                if s.cleared {
                    Ok(())
                } else {
                    Err(OutputLedgerError::NotCleared { key, context: Some(s.frame) })
                }
            },
            None => Err(OutputLedgerError::NotCleared { key, context: None }),
        }
    }

    /// Checks that the output's current value is `expected`.
    pub fn assert_current_equals(&self, key: u64, expected: &O) -> (r: Result<(), OutputLedgerError>)
        ensures
            r is Ok <==> self@.outputs.contains_key(key) && self@.outputs[key].state == Some(expected.deep_view()),
            r matches Err(e) ==> e.deep_view() == (OutputLedgerErrorView::StateMismatch {
                key,
                context: last_frame(self@.outputs, key),
            }),
    {
        match self.outputs.get(key) {
            Some(s) => {
                let ok = match &s.state {
                    Some(v) => v.same_view(expected),
                    None => false,
                };
                if ok {
                    Ok(())
                } else {
                    Err(OutputLedgerError::StateMismatch { key, context: Some(s.frame) })
                }
            },
            None => Err(OutputLedgerError::StateMismatch { key, context: None }),
        }
    }

    /// Checks that the value the deltas left equals the rebaseline value.
    pub fn assert_delta_sequence_matches_rebaseline(&self, key: u64, rebaseline: &O) -> (r: Result<
        (),
        OutputLedgerError,
    >)
        ensures
            r is Ok <==> self@.outputs.contains_key(key) && self@.outputs[key].state == Some(rebaseline.deep_view()),
            r matches Err(e) ==> e.deep_view() == (OutputLedgerErrorView::StateMismatch {
                key,
                context: last_frame(self@.outputs, key),
            }),
    {
        self.assert_current_equals(key, rebaseline)
    }
}

} // verus!
