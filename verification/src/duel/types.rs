//! The data of the leak duel: a chat session whose live attachment
//! streams are kept by event callbacks on one side and reconciled from the
//! desired set on the other.
use vstd::prelude::*;
use crate::dup::Dup;
use crate::strmap::StrSet;

verus! {

/// What a duel run is asked for; absent values take their defaults.
#[derive(Clone, Debug)]
pub struct LeakDuelRequest {
    /// Random seed.
    pub seed: Option<u64>,
    /// Chaos level.
    pub chaos: Option<u8>,
    /// Number of chaos events.
    pub ticks: Option<u32>,
    /// Attachment to explain.
    pub selected: Option<String>,
}

/// What a `LeakDuelRequest` holds, as mathematical values.
pub struct LeakDuelRequestView {
    /// Random seed.
    pub seed: Option<u64>,
    /// Chaos level.
    pub chaos: Option<u8>,
    /// Number of chaos events.
    pub ticks: Option<u32>,
    /// Attachment to explain.
    pub selected: Option<Seq<char>>,
}

impl DeepView for LeakDuelRequest {
    type V = LeakDuelRequestView;

    open spec fn deep_view(&self) -> LeakDuelRequestView {
        LeakDuelRequestView {
            seed: self.seed.deep_view(),
            chaos: self.chaos,
            ticks: self.ticks.deep_view(),
            selected: self.selected.deep_view(),
        }
    }
}

impl View for LeakDuelRequest {
    type V = LeakDuelRequestView;

    open spec fn view(&self) -> LeakDuelRequestView {
        self.deep_view()
    }
}

impl Dup for LeakDuelRequest {
    fn dup(&self) -> (r: Self) {
        LeakDuelRequest {
            seed: self.seed.dup(),
            chaos: self.chaos,
            ticks: self.ticks.dup(),
            selected: self.selected.dup(),
        }
    }
}

/// The canonical inputs of the chat session.
#[derive(Clone, Debug)]
pub struct ChatInputs {
    /// Active workspace.
    pub workspace: String,
    /// Rooms joined.
    pub joined_rooms: StrSet,
    /// Rooms the user may read.
    pub permission_grants: StrSet,
    /// Users followed.
    pub follows: StrSet,
    /// Whether the socket is up.
    pub network_online: bool,
}

/// What a `ChatInputs` holds, as mathematical values.
pub struct ChatInputsView {
    /// Active workspace.
    pub workspace: Seq<char>,
    /// Rooms joined.
    pub joined_rooms: Set<Seq<char>>,
    /// Rooms the user may read.
    pub permission_grants: Set<Seq<char>>,
    /// Users followed.
    pub follows: Set<Seq<char>>,
    /// Whether the socket is up.
    pub network_online: bool,
}

impl DeepView for ChatInputs {
    type V = ChatInputsView;

    open spec fn deep_view(&self) -> ChatInputsView {
        ChatInputsView {
            workspace: self.workspace.deep_view(),
            joined_rooms: self.joined_rooms.deep_view(),
            permission_grants: self.permission_grants.deep_view(),
            follows: self.follows.deep_view(),
            network_online: self.network_online,
        }
    }
}

impl View for ChatInputs {
    type V = ChatInputsView;

    open spec fn view(&self) -> ChatInputsView {
        self.deep_view()
    }
}

impl Dup for ChatInputs {
    fn dup(&self) -> (r: Self) {
        ChatInputs {
            workspace: self.workspace.dup(),
            joined_rooms: self.joined_rooms.dup(),
            permission_grants: self.permission_grants.dup(),
            follows: self.follows.dup(),
            network_online: self.network_online,
        }
    }
}

/// How one side of the duel compares with the desired attachments.
#[derive(Clone, Debug)]
pub struct SideStats {
    /// Handles held.
    pub open: u32,
    /// Attachments desired.
    pub should_open: u32,
    /// Handles held less attachments desired.
    pub delta: i32,
    /// Keys held that are not desired.
    pub orphaned: u32,
    /// Extra handles beyond one per key.
    pub duplicate_handles: u32,
    /// Verdict word.
    pub verdict: String,
}

/// What a `SideStats` holds, as mathematical values.
pub struct SideStatsView {
    /// Handles held.
    pub open: u32,
    /// Attachments desired.
    pub should_open: u32,
    /// Handles held less attachments desired.
    pub delta: i32,
    /// Keys held that are not desired.
    pub orphaned: u32,
    /// Extra handles beyond one per key.
    pub duplicate_handles: u32,
    /// Verdict word.
    pub verdict: Seq<char>,
}

impl DeepView for SideStats {
    type V = SideStatsView;

    open spec fn deep_view(&self) -> SideStatsView {
        SideStatsView {
            open: self.open,
            should_open: self.should_open,
            delta: self.delta,
            orphaned: self.orphaned,
            duplicate_handles: self.duplicate_handles,
            verdict: self.verdict.deep_view(),
        }
    }
}

impl View for SideStats {
    type V = SideStatsView;

    open spec fn view(&self) -> SideStatsView {
        self.deep_view()
    }
}

impl Dup for SideStats {
    fn dup(&self) -> (r: Self) {
        SideStats {
            open: self.open,
            should_open: self.should_open,
            delta: self.delta,
            orphaned: self.orphaned,
            duplicate_handles: self.duplicate_handles,
            verdict: self.verdict.dup(),
        }
    }
}

/// One attachment as both sides hold it.
#[derive(Clone, Debug)]
pub struct AttachmentRow {
    /// Attachment key.
    pub key: String,
    /// Short label.
    pub label: String,
    /// Whether it is desired.
    pub should_open: bool,
    /// Handles the callback side holds.
    pub naive_open: u32,
    /// Handles the reconciled side holds.
    pub trellis_open: u32,
}

/// What a `AttachmentRow` holds, as mathematical values.
pub struct AttachmentRowView {
    /// Attachment key.
    pub key: Seq<char>,
    /// Short label.
    pub label: Seq<char>,
    /// Whether it is desired.
    pub should_open: bool,
    /// Handles the callback side holds.
    pub naive_open: u32,
    /// Handles the reconciled side holds.
    pub trellis_open: u32,
}

impl DeepView for AttachmentRow {
    type V = AttachmentRowView;

    open spec fn deep_view(&self) -> AttachmentRowView {
        AttachmentRowView {
            key: self.key.deep_view(),
            label: self.label.deep_view(),
            should_open: self.should_open,
            naive_open: self.naive_open,
            trellis_open: self.trellis_open,
        }
    }
}

impl View for AttachmentRow {
    type V = AttachmentRowView;

    open spec fn view(&self) -> AttachmentRowView {
        self.deep_view()
    }
}

impl Dup for AttachmentRow {
    fn dup(&self) -> (r: Self) {
        AttachmentRow {
            key: self.key.dup(),
            label: self.label.dup(),
            should_open: self.should_open,
            naive_open: self.naive_open,
            trellis_open: self.trellis_open,
        }
    }
}

/// What one tick did to each side.
#[derive(Clone, Debug)]
pub struct Activity {
    /// Tick number.
    pub tick: u32,
    /// Event label.
    pub label: String,
    /// Event detail.
    pub detail: String,
    /// What the callback side did.
    pub naive_note: String,
    /// What the reconciled side did.
    pub trellis_note: String,
}

/// What a `Activity` holds, as mathematical values.
pub struct ActivityView {
    /// Tick number.
    pub tick: u32,
    /// Event label.
    pub label: Seq<char>,
    /// Event detail.
    pub detail: Seq<char>,
    /// What the callback side did.
    pub naive_note: Seq<char>,
    /// What the reconciled side did.
    pub trellis_note: Seq<char>,
}

impl DeepView for Activity {
    type V = ActivityView;

    open spec fn deep_view(&self) -> ActivityView {
        ActivityView {
            tick: self.tick,
            label: self.label.deep_view(),
            detail: self.detail.deep_view(),
            naive_note: self.naive_note.deep_view(),
            trellis_note: self.trellis_note.deep_view(),
        }
    }
}

impl View for Activity {
    type V = ActivityView;

    open spec fn view(&self) -> ActivityView {
        self.deep_view()
    }
}

impl Dup for Activity {
    fn dup(&self) -> (r: Self) {
        Activity {
            tick: self.tick,
            label: self.label.dup(),
            detail: self.detail.dup(),
            naive_note: self.naive_note.dup(),
            trellis_note: self.trellis_note.dup(),
        }
    }
}

/// One step of an explanation.
#[derive(Clone, Debug)]
pub struct ReceiptStep {
    /// Step name.
    pub label: String,
    /// Step detail.
    pub detail: String,
}

/// What a `ReceiptStep` holds, as mathematical values.
pub struct ReceiptStepView {
    /// Step name.
    pub label: Seq<char>,
    /// Step detail.
    pub detail: Seq<char>,
}

impl DeepView for ReceiptStep {
    type V = ReceiptStepView;

    open spec fn deep_view(&self) -> ReceiptStepView {
        ReceiptStepView {
            label: self.label.deep_view(),
            detail: self.detail.deep_view(),
        }
    }
}

impl View for ReceiptStep {
    type V = ReceiptStepView;

    open spec fn view(&self) -> ReceiptStepView {
        self.deep_view()
    }
}

impl Dup for ReceiptStep {
    fn dup(&self) -> (r: Self) {
        ReceiptStep {
            label: self.label.dup(),
            detail: self.detail.dup(),
        }
    }
}

/// Why an attachment is or is not held.
#[derive(Clone, Debug)]
pub struct Receipt {
    /// Attachment key.
    pub key: String,
    /// Headline.
    pub title: String,
    /// `owned` or `not-owned`.
    pub status: String,
    /// The explanation.
    pub steps: Vec<ReceiptStep>,
}

/// What a `Receipt` holds, as mathematical values.
pub struct ReceiptView {
    /// Attachment key.
    pub key: Seq<char>,
    /// Headline.
    pub title: Seq<char>,
    /// `owned` or `not-owned`.
    pub status: Seq<char>,
    /// The explanation.
    pub steps: Seq<ReceiptStepView>,
}

impl DeepView for Receipt {
    type V = ReceiptView;

    open spec fn deep_view(&self) -> ReceiptView {
        ReceiptView {
            key: self.key.deep_view(),
            title: self.title.deep_view(),
            status: self.status.deep_view(),
            steps: self.steps.deep_view(),
        }
    }
}

impl View for Receipt {
    type V = ReceiptView;

    open spec fn view(&self) -> ReceiptView {
        self.deep_view()
    }
}

impl Dup for Receipt {
    fn dup(&self) -> (r: Self) {
        Receipt {
            key: self.key.dup(),
            title: self.title.dup(),
            status: self.status.dup(),
            steps: self.steps.dup(),
        }
    }
}

/// The record of one planned command of the reconciled side.
#[derive(Clone, Debug)]
pub struct CommandProof {
    /// `OPEN` or `CLOSE`.
    pub kind: String,
    /// Attachment key.
    pub key: String,
    /// Command label.
    pub label: String,
    /// Owning scope.
    pub scope: String,
    /// Scope number.
    pub scope_id: u64,
    /// Transaction number.
    pub transaction_id: u64,
    /// Revision number.
    pub revision: u64,
    /// Why it was planned.
    pub cause: String,
    /// What applying it left.
    pub applied_ledger_result: String,
}

/// What a `CommandProof` holds, as mathematical values.
pub struct CommandProofView {
    /// `OPEN` or `CLOSE`.
    pub kind: Seq<char>,
    /// Attachment key.
    pub key: Seq<char>,
    /// Command label.
    pub label: Seq<char>,
    /// Owning scope.
    pub scope: Seq<char>,
    /// Scope number.
    pub scope_id: u64,
    /// Transaction number.
    pub transaction_id: u64,
    /// Revision number.
    pub revision: u64,
    /// Why it was planned.
    pub cause: Seq<char>,
    /// What applying it left.
    pub applied_ledger_result: Seq<char>,
}

impl DeepView for CommandProof {
    type V = CommandProofView;

    open spec fn deep_view(&self) -> CommandProofView {
        CommandProofView {
            kind: self.kind.deep_view(),
            key: self.key.deep_view(),
            label: self.label.deep_view(),
            scope: self.scope.deep_view(),
            scope_id: self.scope_id,
            transaction_id: self.transaction_id,
            revision: self.revision,
            cause: self.cause.deep_view(),
            applied_ledger_result: self.applied_ledger_result.deep_view(),
        }
    }
}

impl View for CommandProof {
    type V = CommandProofView;

    open spec fn view(&self) -> CommandProofView {
        self.deep_view()
    }
}

impl Dup for CommandProof {
    fn dup(&self) -> (r: Self) {
        CommandProof {
            kind: self.kind.dup(),
            key: self.key.dup(),
            label: self.label.dup(),
            scope: self.scope.dup(),
            scope_id: self.scope_id,
            transaction_id: self.transaction_id,
            revision: self.revision,
            cause: self.cause.dup(),
            applied_ledger_result: self.applied_ledger_result.dup(),
        }
    }
}

/// The diff of the desired attachments at the last tick.
#[derive(Clone, Debug)]
pub struct DiffProof {
    /// Keys added, sorted.
    pub added: Vec<String>,
    /// Keys removed, sorted.
    pub removed: Vec<String>,
    /// Keys kept, sorted.
    pub unchanged: Vec<String>,
}

/// What a `DiffProof` holds, as mathematical values.
pub struct DiffProofView {
    /// Keys added, sorted.
    pub added: Seq<Seq<char>>,
    /// Keys removed, sorted.
    pub removed: Seq<Seq<char>>,
    /// Keys kept, sorted.
    pub unchanged: Seq<Seq<char>>,
}

impl DeepView for DiffProof {
    type V = DiffProofView;

    open spec fn deep_view(&self) -> DiffProofView {
        DiffProofView {
            added: self.added.deep_view(),
            removed: self.removed.deep_view(),
            unchanged: self.unchanged.deep_view(),
        }
    }
}

impl View for DiffProof {
    type V = DiffProofView;

    open spec fn view(&self) -> DiffProofView {
        self.deep_view()
    }
}

impl Dup for DiffProof {
    fn dup(&self) -> (r: Self) {
        DiffProof {
            added: self.added.dup(),
            removed: self.removed.dup(),
            unchanged: self.unchanged.dup(),
        }
    }
}

/// One duel invariant and its outcome.
#[derive(Clone, Debug)]
pub struct InvariantResult {
    /// Invariant name.
    pub name: String,
    /// Whether it held.
    pub passed: bool,
    /// Detail.
    pub detail: String,
}

/// What a `InvariantResult` holds, as mathematical values.
pub struct InvariantResultView {
    /// Invariant name.
    pub name: Seq<char>,
    /// Whether it held.
    pub passed: bool,
    /// Detail.
    pub detail: Seq<char>,
}

impl DeepView for InvariantResult {
    type V = InvariantResultView;

    open spec fn deep_view(&self) -> InvariantResultView {
        InvariantResultView {
            name: self.name.deep_view(),
            passed: self.passed,
            detail: self.detail.deep_view(),
        }
    }
}

impl View for InvariantResult {
    type V = InvariantResultView;

    open spec fn view(&self) -> InvariantResultView {
        self.deep_view()
    }
}

impl Dup for InvariantResult {
    fn dup(&self) -> (r: Self) {
        InvariantResult {
            name: self.name.dup(),
            passed: self.passed,
            detail: self.detail.dup(),
        }
    }
}

/// Evidence for a duel run.
#[derive(Clone, Debug)]
pub struct DuelProof {
    /// Bundle the engine ships in.
    pub wasm_bundle: String,
    /// Source of the engine.
    pub rust_source: String,
    /// Source of the page.
    pub ui_source: String,
    /// Input node name.
    pub input_node: String,
    /// Derived collection name.
    pub collection: String,
    /// Scope name.
    pub scope: String,
    /// Last transaction of the reconciled side.
    pub transaction_id: u64,
    /// Last revision of the reconciled side.
    pub revision: u64,
    /// Parameters that replay the run.
    pub deterministic_replay: String,
    /// Diff of the last tick.
    pub desired_diff: DiffProof,
    /// Commands of the last transaction.
    pub current_commands: Vec<CommandProof>,
    /// Last command for the selected key.
    pub selected_command: Option<CommandProof>,
    /// Duel invariants.
    pub invariants: Vec<InvariantResult>,
}

/// What a `DuelProof` holds, as mathematical values.
pub struct DuelProofView {
    /// Bundle the engine ships in.
    pub wasm_bundle: Seq<char>,
    /// Source of the engine.
    pub rust_source: Seq<char>,
    /// Source of the page.
    pub ui_source: Seq<char>,
    /// Input node name.
    pub input_node: Seq<char>,
    /// Derived collection name.
    pub collection: Seq<char>,
    /// Scope name.
    pub scope: Seq<char>,
    /// Last transaction of the reconciled side.
    pub transaction_id: u64,
    /// Last revision of the reconciled side.
    pub revision: u64,
    /// Parameters that replay the run.
    pub deterministic_replay: Seq<char>,
    /// Diff of the last tick.
    pub desired_diff: DiffProofView,
    /// Commands of the last transaction.
    pub current_commands: Seq<CommandProofView>,
    /// Last command for the selected key.
    pub selected_command: Option<CommandProofView>,
    /// Duel invariants.
    pub invariants: Seq<InvariantResultView>,
}

impl DeepView for DuelProof {
    type V = DuelProofView;

    open spec fn deep_view(&self) -> DuelProofView {
        DuelProofView {
            wasm_bundle: self.wasm_bundle.deep_view(),
            rust_source: self.rust_source.deep_view(),
            ui_source: self.ui_source.deep_view(),
            input_node: self.input_node.deep_view(),
            collection: self.collection.deep_view(),
            scope: self.scope.deep_view(),
            transaction_id: self.transaction_id,
            revision: self.revision,
            deterministic_replay: self.deterministic_replay.deep_view(),
            desired_diff: self.desired_diff.deep_view(),
            current_commands: self.current_commands.deep_view(),
            selected_command: self.selected_command.deep_view(),
            invariants: self.invariants.deep_view(),
        }
    }
}

impl View for DuelProof {
    type V = DuelProofView;

    open spec fn view(&self) -> DuelProofView {
        self.deep_view()
    }
}

impl Dup for DuelProof {
    fn dup(&self) -> (r: Self) {
        DuelProof {
            wasm_bundle: self.wasm_bundle.dup(),
            rust_source: self.rust_source.dup(),
            ui_source: self.ui_source.dup(),
            input_node: self.input_node.dup(),
            collection: self.collection.dup(),
            scope: self.scope.dup(),
            transaction_id: self.transaction_id,
            revision: self.revision,
            deterministic_replay: self.deterministic_replay.dup(),
            desired_diff: self.desired_diff.dup(),
            current_commands: self.current_commands.dup(),
            selected_command: self.selected_command.dup(),
            invariants: self.invariants.dup(),
        }
    }
}

/// The outcome of a duel run.
#[derive(Clone, Debug)]
pub struct LeakDuelState {
    /// Random seed.
    pub seed: u64,
    /// Chaos level.
    pub chaos: u8,
    /// Ticks run.
    pub tick: u32,
    /// Final inputs.
    pub inputs: ChatInputs,
    /// Desired attachments, sorted.
    pub should_open: Vec<String>,
    /// Every attachment either side holds or should hold.
    pub rows: Vec<AttachmentRow>,
    /// The callback side.
    pub naive: SideStats,
    /// The reconciled side.
    pub trellis: SideStats,
    /// What each tick did.
    pub activity: Vec<Activity>,
    /// Explanation of the selected attachment.
    pub selected_receipt: Receipt,
    /// Evidence.
    pub proof: DuelProof,
}

/// What a `LeakDuelState` holds, as mathematical values.
pub struct LeakDuelStateView {
    /// Random seed.
    pub seed: u64,
    /// Chaos level.
    pub chaos: u8,
    /// Ticks run.
    pub tick: u32,
    /// Final inputs.
    pub inputs: ChatInputsView,
    /// Desired attachments, sorted.
    pub should_open: Seq<Seq<char>>,
    /// Every attachment either side holds or should hold.
    pub rows: Seq<AttachmentRowView>,
    /// The callback side.
    pub naive: SideStatsView,
    /// The reconciled side.
    pub trellis: SideStatsView,
    /// What each tick did.
    pub activity: Seq<ActivityView>,
    /// Explanation of the selected attachment.
    pub selected_receipt: ReceiptView,
    /// Evidence.
    pub proof: DuelProofView,
}

impl DeepView for LeakDuelState {
    type V = LeakDuelStateView;

    open spec fn deep_view(&self) -> LeakDuelStateView {
        LeakDuelStateView {
            seed: self.seed,
            chaos: self.chaos,
            tick: self.tick,
            inputs: self.inputs.deep_view(),
            should_open: self.should_open.deep_view(),
            rows: self.rows.deep_view(),
            naive: self.naive.deep_view(),
            trellis: self.trellis.deep_view(),
            activity: self.activity.deep_view(),
            selected_receipt: self.selected_receipt.deep_view(),
            proof: self.proof.deep_view(),
        }
    }
}

impl View for LeakDuelState {
    type V = LeakDuelStateView;

    open spec fn view(&self) -> LeakDuelStateView {
        self.deep_view()
    }
}

impl Dup for LeakDuelState {
    fn dup(&self) -> (r: Self) {
        LeakDuelState {
            seed: self.seed,
            chaos: self.chaos,
            tick: self.tick,
            inputs: self.inputs.dup(),
            should_open: self.should_open.dup(),
            rows: self.rows.dup(),
            naive: self.naive.dup(),
            trellis: self.trellis.dup(),
            activity: self.activity.dup(),
            selected_receipt: self.selected_receipt.dup(),
            proof: self.proof.dup(),
        }
    }
}


} // verus!
