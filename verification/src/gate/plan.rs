//! What a committed transaction hands a host, as plain values: resource
//! commands with their keys and owning scopes, output frames, and host
//! status reports.
use vstd::prelude::*;
use crate::dup::Dup;

verus! {

/// What a resource command asks the host to do.
#[derive(Clone, Copy, Debug, PartialEq, Eq, Structural)]
pub enum ResourceCommandKind {
    /// Start the resource for the scope.
    Open,
    /// Stop the scope's use of the resource.
    Close,
    /// Swap the resource for a new one, atomically.
    Replace,
    /// Re-issue the resource's command.
    Refresh,
}

/// One command of a committed resource plan.
#[derive(Clone, Debug)]
pub struct ResourceCommand {
    /// What to do.
    pub kind: ResourceCommandKind,
    /// The resource key.
    pub key: String,
    /// The scope the command is for.
    pub scope: u64,
}

/// What a `ResourceCommand` holds, as mathematical values.
pub struct ResourceCommandView {
    /// What to do.
    pub kind: ResourceCommandKind,
    /// The resource key.
    pub key: Seq<char>,
    /// The scope the command is for.
    pub scope: u64,
}

impl DeepView for ResourceCommand {
    type V = ResourceCommandView;

    open spec fn deep_view(&self) -> ResourceCommandView {
        ResourceCommandView { kind: self.kind, key: self.key@, scope: self.scope }
    }
}

impl View for ResourceCommand {
    type V = ResourceCommandView;

    open spec fn view(&self) -> ResourceCommandView {
        self.deep_view()
    }
}

impl Dup for ResourceCommand {
    fn dup(&self) -> (r: Self) {
        ResourceCommand { kind: self.kind, key: self.key.dup(), scope: self.scope }
    }
}

/// A host's report on a resource: for which command revision of which
/// scope, at which status revision.
#[derive(Clone, Debug)]
pub struct HostStatusEvent {
    /// The resource key.
    pub key: String,
    /// The scope the status is for.
    pub scope: u64,
    /// The command revision the host acted on.
    pub command_revision: u64,
    /// The revision of the status itself.
    pub status_revision: u64,
}

/// What a status report identifies: key, scope, command revision and
/// status revision.
pub type StatusId = (Seq<char>, u64, u64, u64);

/// What a `HostStatusEvent` holds, as mathematical values.
pub struct HostStatusEventView {
    /// The resource key.
    pub key: Seq<char>,
    /// The scope the status is for.
    pub scope: u64,
    /// The command revision the host acted on.
    pub command_revision: u64,
    /// The revision of the status itself.
    pub status_revision: u64,
}

impl HostStatusEventView {
    /// The identity of the report.
    pub open spec fn id(self) -> StatusId {
        (self.key, self.scope, self.command_revision, self.status_revision)
    }
}

impl DeepView for HostStatusEvent {
    type V = HostStatusEventView;

    open spec fn deep_view(&self) -> HostStatusEventView {
        HostStatusEventView {
            key: self.key@,
            scope: self.scope,
            command_revision: self.command_revision,
            status_revision: self.status_revision,
        }
    }
}

impl View for HostStatusEvent {
    type V = HostStatusEventView;

    open spec fn view(&self) -> HostStatusEventView {
        self.deep_view()
    }
}

impl Dup for HostStatusEvent {
    fn dup(&self) -> (r: Self) {
        HostStatusEvent {
            key: self.key.dup(),
            scope: self.scope,
            command_revision: self.command_revision,
            status_revision: self.status_revision,
        }
    }
}

/// How a host status report relates to the ledger.
#[derive(Clone, Copy, Debug, PartialEq, Eq, Structural)]
pub enum HostStatusClass {
    /// Matches the current resource, scope and command revision.
    Current,
    /// Repeats a report already accepted.
    Duplicate,
    /// Targets an older command revision.
    Stale,
    /// Targets a command revision the ledger has not seen.
    Future,
    /// Targets a scope that no longer owns the resource.
    Late,
}

/// A status report and how it was classified.
#[derive(Clone, Debug)]
pub struct HostStatusRecord {
    /// The report.
    pub status: HostStatusEvent,
    /// Its class.
    pub class: HostStatusClass,
}

/// What a `HostStatusRecord` holds, as mathematical values.
pub struct HostStatusRecordView {
    /// The report.
    pub status: HostStatusEventView,
    /// Its class.
    pub class: HostStatusClass,
}

impl DeepView for HostStatusRecord {
    type V = HostStatusRecordView;

    open spec fn deep_view(&self) -> HostStatusRecordView {
        HostStatusRecordView { status: self.status.deep_view(), class: self.class }
    }
}

impl Dup for HostStatusRecord {
    fn dup(&self) -> (r: Self) {
        HostStatusRecord { status: self.status.dup(), class: self.class }
    }
}

/// A committed transaction, as a host receives it: its number and revision,
/// its resource plan, and its output frames.
#[derive(Clone, Debug)]
pub struct TransactionResult<O> {
    /// Transaction number.
    pub transaction_id: u64,
    /// Revision.
    pub revision: u64,
    /// The resource commands, in plan order.
    pub resource_plan: Vec<ResourceCommand>,
    /// The output frames, in emission order.
    pub output_frames: Vec<OutputFrame<O>>,
}

/// The payload of an output frame.
#[derive(Clone, Debug)]
pub enum OutputFrameKind<O> {
    /// The first value of an output.
    Baseline(O),
    /// A changed value.
    Delta(O),
    /// A value re-sent in full.
    Rebaseline(O),
    /// The output went away.
    Clear,
}

/// One output frame.
#[derive(Clone, Debug)]
pub struct OutputFrame<O> {
    /// The output.
    pub output_key: u64,
    /// The scope that owns the output.
    pub scope: u64,
    /// The transaction that emitted the frame.
    pub transaction_id: u64,
    /// The revision of the frame.
    pub revision: u64,
    /// The payload.
    pub kind: OutputFrameKind<O>,
}

/// What an `OutputFrameKind` holds, as mathematical values.
pub enum OutputFrameKindView<V> {
    /// The first value of an output.
    Baseline(V),
    /// A changed value.
    Delta(V),
    /// A value re-sent in full.
    Rebaseline(V),
    /// The output went away.
    Clear,
}

impl<O: DeepView> DeepView for OutputFrameKind<O> {
    type V = OutputFrameKindView<O::V>;

    open spec fn deep_view(&self) -> OutputFrameKindView<O::V> {
        match self {
            OutputFrameKind::Baseline(v) => OutputFrameKindView::Baseline(v.deep_view()),
            OutputFrameKind::Delta(v) => OutputFrameKindView::Delta(v.deep_view()),
            OutputFrameKind::Rebaseline(v) => OutputFrameKindView::Rebaseline(v.deep_view()),
            OutputFrameKind::Clear => OutputFrameKindView::Clear,
        }
    }
}

/// What an `OutputFrame` holds, as mathematical values.
pub struct OutputFrameView<V> {
    /// The output.
    pub output_key: u64,
    /// The scope that owns the output.
    pub scope: u64,
    /// The transaction that emitted the frame.
    pub transaction_id: u64,
    /// The revision of the frame.
    pub revision: u64,
    /// The payload.
    pub kind: OutputFrameKindView<V>,
}

impl<O: DeepView> DeepView for OutputFrame<O> {
    type V = OutputFrameView<O::V>;

    open spec fn deep_view(&self) -> OutputFrameView<O::V> {
        OutputFrameView {
            output_key: self.output_key,
            scope: self.scope,
            transaction_id: self.transaction_id,
            revision: self.revision,
            kind: self.kind.deep_view(),
        }
    }
}

impl<O: Dup> Dup for OutputFrame<O> {
    fn dup(&self) -> (r: Self) {
        let kind = match &self.kind {
            OutputFrameKind::Baseline(v) => OutputFrameKind::Baseline(v.dup()),
            OutputFrameKind::Delta(v) => OutputFrameKind::Delta(v.dup()),
            OutputFrameKind::Rebaseline(v) => OutputFrameKind::Rebaseline(v.dup()),
            OutputFrameKind::Clear => OutputFrameKind::Clear,
        };
        OutputFrame {
            output_key: self.output_key,
            scope: self.scope,
            transaction_id: self.transaction_id,
            revision: self.revision,
            kind,
        }
    }
}

/// What a host reports it did with a resource.
#[derive(Clone, Debug)]
pub enum HostResourceOutcome {
    /// The resource is open.
    Open,
    /// The resource is closed.
    Closed,
    /// The host does not know.
    Unknown,
    /// The host does not support the command.
    Unsupported(String),
    /// The command failed.
    Failed(String),
}

/// A host report with its outcome.
#[derive(Clone, Debug)]
pub struct HostStatusReport {
    /// The resource key.
    pub key: String,
    /// The scope the report is for.
    pub scope: u64,
    /// The command revision the host acted on.
    pub command_revision: u64,
    /// The revision of the report.
    pub status_revision: u64,
    /// What the host did.
    pub outcome: HostResourceOutcome,
}

/// What a `HostResourceOutcome` holds, as mathematical values.
pub enum HostResourceOutcomeView {
    /// The resource is open.
    Open,
    /// The resource is closed.
    Closed,
    /// The host does not know.
    Unknown,
    /// The host does not support the command.
    Unsupported(Seq<char>),
    /// The command failed.
    Failed(Seq<char>),
}

impl DeepView for HostResourceOutcome {
    type V = HostResourceOutcomeView;

    open spec fn deep_view(&self) -> HostResourceOutcomeView {
        match self {
            HostResourceOutcome::Open => HostResourceOutcomeView::Open,
            HostResourceOutcome::Closed => HostResourceOutcomeView::Closed,
            HostResourceOutcome::Unknown => HostResourceOutcomeView::Unknown,
            HostResourceOutcome::Unsupported(s) => HostResourceOutcomeView::Unsupported(s@),
            HostResourceOutcome::Failed(s) => HostResourceOutcomeView::Failed(s@),
        }
    }
}

impl Dup for HostResourceOutcome {
    fn dup(&self) -> (r: Self) {
        match self {
            HostResourceOutcome::Open => HostResourceOutcome::Open,
            HostResourceOutcome::Closed => HostResourceOutcome::Closed,
            HostResourceOutcome::Unknown => HostResourceOutcome::Unknown,
            HostResourceOutcome::Unsupported(s) => HostResourceOutcome::Unsupported(s.dup()),
            HostResourceOutcome::Failed(s) => HostResourceOutcome::Failed(s.dup()),
        }
    }
}

/// What a `HostStatusReport` holds, as mathematical values.
pub struct HostStatusReportView {
    /// The resource key.
    pub key: Seq<char>,
    /// The scope the report is for.
    pub scope: u64,
    /// The command revision the host acted on.
    pub command_revision: u64,
    /// The revision of the report.
    pub status_revision: u64,
    /// What the host did.
    pub outcome: HostResourceOutcomeView,
}

impl DeepView for HostStatusReport {
    type V = HostStatusReportView;

    open spec fn deep_view(&self) -> HostStatusReportView {
        HostStatusReportView {
            key: self.key@,
            scope: self.scope,
            command_revision: self.command_revision,
            status_revision: self.status_revision,
            outcome: self.outcome.deep_view(),
        }
    }
}

impl Dup for HostStatusReport {
    fn dup(&self) -> (r: Self) {
        HostStatusReport {
            key: self.key.dup(),
            scope: self.scope,
            command_revision: self.command_revision,
            status_revision: self.status_revision,
            outcome: self.outcome.dup(),
        }
    }
}

/// Whether two commands are the same command.
pub fn same_command(a: &ResourceCommand, b: &ResourceCommand) -> (r: bool)
    ensures
        r == (a.deep_view() == b.deep_view()),
{
    a.kind == b.kind && a.scope == b.scope && crate::text::str_eq(a.key.as_str(), b.key.as_str())
}

/// Whether two command lists are the same, command by command.
pub fn same_commands(a: &[ResourceCommand], b: &[ResourceCommand]) -> (r: bool)
    ensures
        r == (a.deep_view() == b.deep_view()),
{
    if a.len() != b.len() {
        assert(a.deep_view().len() != b.deep_view().len());
        return false;
    }
    let mut i: usize = 0;
    while i < a.len()
        invariant
            i <= a@.len(),
            a@.len() == b@.len(),
            forall|j: int| 0 <= j < i ==> a.deep_view()[j] == b.deep_view()[j],
        decreases a@.len() - i,
    {
        if !same_command(&a[i], &b[i]) {
            assert(a.deep_view()[i as int] != b.deep_view()[i as int]);
            return false;
        }
        i = i + 1;
    }
    assert(a.deep_view() =~= b.deep_view());
    true
}

/// A copy of the commands.
pub fn copy_commands(a: &[ResourceCommand]) -> (r: Vec<ResourceCommand>)
    ensures
        r.deep_view() == a.deep_view(),
{
    let mut r: Vec<ResourceCommand> = Vec::new();
    let mut i: usize = 0;
    while i < a.len()
        invariant
            i <= a@.len(),
            r.deep_view() == a.deep_view().take(i as int),
        decreases a@.len() - i,
    {
        let ghost prev = r.deep_view();
        r.push(a[i].dup());
        assert(r.deep_view() =~= prev.push(a.deep_view()[i as int]));
        assert(r.deep_view() =~= a.deep_view().take(i + 1));
        i = i + 1;
    }
    assert(a.deep_view().take(i as int) =~= a.deep_view());
    r
}

} // verus!
