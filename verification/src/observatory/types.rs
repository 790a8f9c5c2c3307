//! The data model of the observatory.
use vstd::prelude::*;
use crate::dup::{Dup, SameView};
use crate::strmap::StrMap;

verus! {

/// The path of a file.
pub type FilePath = String;

/// The name of a branch.
pub type BranchId = String;

/// A revision number.
pub type Revision = u32;

/// Compiler configuration.
#[derive(Clone, Copy, Debug, PartialEq, Eq, Structural)]
pub enum CompilerConfig {
    /// Strict type checking.
    Strict,
    /// Loose type checking.
    Loose,
}

impl DeepView for CompilerConfig {
    type V = CompilerConfig;

    open spec fn deep_view(&self) -> CompilerConfig {
        *self
    }
}

impl Dup for CompilerConfig {
    fn dup(&self) -> (r: Self) {
        *self
    }
}

/// A user action on the observatory.
#[derive(Clone, Debug)]
pub enum Action {
    /// Start over from the initial state.
    Reset,
    /// Switch between `trellis` and `naive` mode.
    SetMode { mode: String },
    /// Toggle one naive bug.
    SetBug { key: String, value: bool },
    /// Delete a file.
    DeleteFile { path: FilePath },
    /// Check out another branch.
    SwitchBranch { branch: BranchId },
    /// Rename the schema module.
    RenameSchema,
    /// Edit `src/app.tl` so that it no longer type checks.
    EditAppWithTypeError,
    /// Fix `src/app.tl`.
    FixApp,
    /// Start a slow analysis of `src/app.tl`.
    StartSlowAnalysis,
    /// Deliver a stale analysis result.
    InjectStaleAnalysisResult,
    /// Toggle whether generated files take part.
    ToggleGenerated,
    /// Change the compiler configuration.
    ChangeConfig { config: CompilerConfig },
    /// Close the `src/app.tl` tab.
    CloseAppTab,
    /// Open a file in an editor tab.
    OpenFile { path: FilePath },
    /// Select the explanation to show.
    SelectWhy { id: Option<String> },
}

/// What an `Action` holds, as mathematical values.
pub enum ActionView {
    Reset,
    SetMode { mode: Seq<char> },
    SetBug { key: Seq<char>, value: bool },
    DeleteFile { path: Seq<char> },
    SwitchBranch { branch: Seq<char> },
    RenameSchema,
    EditAppWithTypeError,
    FixApp,
    StartSlowAnalysis,
    InjectStaleAnalysisResult,
    ToggleGenerated,
    ChangeConfig { config: CompilerConfig },
    CloseAppTab,
    OpenFile { path: Seq<char> },
    SelectWhy { id: Option<Seq<char>> },
}

impl DeepView for Action {
    type V = ActionView;

    open spec fn deep_view(&self) -> ActionView {
        match self {
            Action::Reset => ActionView::Reset,
            Action::SetMode { mode } => ActionView::SetMode { mode: mode@ },
            Action::SetBug { key, value } => ActionView::SetBug { key: key@, value: *value },
            Action::DeleteFile { path } => ActionView::DeleteFile { path: path@ },
            Action::SwitchBranch { branch } => ActionView::SwitchBranch { branch: branch@ },
            Action::RenameSchema => ActionView::RenameSchema,
            Action::EditAppWithTypeError => ActionView::EditAppWithTypeError,
            Action::FixApp => ActionView::FixApp,
            Action::StartSlowAnalysis => ActionView::StartSlowAnalysis,
            Action::InjectStaleAnalysisResult => ActionView::InjectStaleAnalysisResult,
            Action::ToggleGenerated => ActionView::ToggleGenerated,
            Action::ChangeConfig { config } => ActionView::ChangeConfig { config: *config },
            Action::CloseAppTab => ActionView::CloseAppTab,
            Action::OpenFile { path } => ActionView::OpenFile { path: path@ },
            Action::SelectWhy { id } => ActionView::SelectWhy { id: id.deep_view() },
        }
    }
}

impl Dup for Action {
    fn dup(&self) -> (r: Self) {
        match self {
            Action::Reset => Action::Reset,
            Action::SetMode { mode } => Action::SetMode { mode: mode.dup() },
            Action::SetBug { key, value } => Action::SetBug { key: key.dup(), value: *value },
            Action::DeleteFile { path } => Action::DeleteFile { path: path.dup() },
            Action::SwitchBranch { branch } => Action::SwitchBranch { branch: branch.dup() },
            Action::RenameSchema => Action::RenameSchema,
            Action::EditAppWithTypeError => Action::EditAppWithTypeError,
            Action::FixApp => Action::FixApp,
            Action::StartSlowAnalysis => Action::StartSlowAnalysis,
            Action::InjectStaleAnalysisResult => Action::InjectStaleAnalysisResult,
            Action::ToggleGenerated => Action::ToggleGenerated,
            Action::ChangeConfig { config } => Action::ChangeConfig { config: *config },
            Action::CloseAppTab => Action::CloseAppTab,
            Action::OpenFile { path } => Action::OpenFile { path: path.dup() },
            Action::SelectWhy { id } => Action::SelectWhy { id: id.dup() },
        }
    }
}

/// A source file of the workspace.
#[derive(Clone, Debug)]
pub struct FileRecord {
    /// Path of the file.
    pub path: String,
    /// Text of the file.
    pub contents: String,
    /// Whether the file is generated.
    pub generated: bool,
}

/// What a `FileRecord` holds, as mathematical values.
pub struct FileRecordView {
    /// Path of the file.
    pub path: Seq<char>,
    /// Text of the file.
    pub contents: Seq<char>,
    /// Whether the file is generated.
    pub generated: bool,
}

impl DeepView for FileRecord {
    type V = FileRecordView;

    open spec fn deep_view(&self) -> FileRecordView {
        FileRecordView {
            path: self.path.deep_view(),
            contents: self.contents.deep_view(),
            generated: self.generated,
        }
    }
}

impl View for FileRecord {
    type V = FileRecordView;

    open spec fn view(&self) -> FileRecordView {
        self.deep_view()
    }
}

impl Dup for FileRecord {
    fn dup(&self) -> (r: Self) {
        FileRecord {
            path: self.path.dup(),
            contents: self.contents.dup(),
            generated: self.generated,
        }
    }
}

/// A diagnostic published for a file.
#[derive(Clone, Debug)]
pub struct Diagnostic {
    /// Stable identity.
    pub id: String,
    /// File the diagnostic belongs to.
    pub file_path: String,
    /// One-based line.
    pub line: usize,
    /// One-based column.
    pub column: usize,
    /// Severity label.
    pub severity: String,
    /// Human-readable message.
    pub message: String,
    /// Analysis that produced it.
    pub source: String,
}

/// What a `Diagnostic` holds, as mathematical values.
pub struct DiagnosticView {
    /// Stable identity.
    pub id: Seq<char>,
    /// File the diagnostic belongs to.
    pub file_path: Seq<char>,
    /// One-based line.
    pub line: usize,
    /// One-based column.
    pub column: usize,
    /// Severity label.
    pub severity: Seq<char>,
    /// Human-readable message.
    pub message: Seq<char>,
    /// Analysis that produced it.
    pub source: Seq<char>,
}

impl DeepView for Diagnostic {
    type V = DiagnosticView;

    open spec fn deep_view(&self) -> DiagnosticView {
        DiagnosticView {
            id: self.id.deep_view(),
            file_path: self.file_path.deep_view(),
            line: self.line,
            column: self.column,
            severity: self.severity.deep_view(),
            message: self.message.deep_view(),
            source: self.source.deep_view(),
        }
    }
}

impl View for Diagnostic {
    type V = DiagnosticView;

    open spec fn view(&self) -> DiagnosticView {
        self.deep_view()
    }
}

impl Dup for Diagnostic {
    fn dup(&self) -> (r: Self) {
        Diagnostic {
            id: self.id.dup(),
            file_path: self.file_path.dup(),
            line: self.line,
            column: self.column,
            severity: self.severity.dup(),
            message: self.message.dup(),
            source: self.source.dup(),
        }
    }
}

/// An import link from one file to another.
#[derive(Clone, Debug)]
pub struct DocumentLink {
    /// Stable identity.
    pub id: String,
    /// File holding the import.
    pub file_path: String,
    /// Imported file.
    pub target_path: String,
    /// One-based line.
    pub line: usize,
    /// One-based start column.
    pub column_start: usize,
    /// One-based end column.
    pub column_end: usize,
    /// `resolved` or `missing`.
    pub status: String,
}

/// What a `DocumentLink` holds, as mathematical values.
pub struct DocumentLinkView {
    /// Stable identity.
    pub id: Seq<char>,
    /// File holding the import.
    pub file_path: Seq<char>,
    /// Imported file.
    pub target_path: Seq<char>,
    /// One-based line.
    pub line: usize,
    /// One-based start column.
    pub column_start: usize,
    /// One-based end column.
    pub column_end: usize,
    /// `resolved` or `missing`.
    pub status: Seq<char>,
}

impl DeepView for DocumentLink {
    type V = DocumentLinkView;

    open spec fn deep_view(&self) -> DocumentLinkView {
        DocumentLinkView {
            id: self.id.deep_view(),
            file_path: self.file_path.deep_view(),
            target_path: self.target_path.deep_view(),
            line: self.line,
            column_start: self.column_start,
            column_end: self.column_end,
            status: self.status.deep_view(),
        }
    }
}

impl View for DocumentLink {
    type V = DocumentLinkView;

    open spec fn view(&self) -> DocumentLinkView {
        self.deep_view()
    }
}

impl Dup for DocumentLink {
    fn dup(&self) -> (r: Self) {
        DocumentLink {
            id: self.id.dup(),
            file_path: self.file_path.dup(),
            target_path: self.target_path.dup(),
            line: self.line,
            column_start: self.column_start,
            column_end: self.column_end,
            status: self.status.dup(),
        }
    }
}

/// A highlighted token of a file.
#[derive(Clone, Debug)]
pub struct SemanticToken {
    /// Stable identity.
    pub id: String,
    /// File holding the token.
    pub file_path: String,
    /// One-based line.
    pub line: usize,
    /// One-based start column.
    pub column_start: usize,
    /// One-based end column.
    pub column_end: usize,
    /// Token class.
    pub token_type: String,
}

/// What a `SemanticToken` holds, as mathematical values.
pub struct SemanticTokenView {
    /// Stable identity.
    pub id: Seq<char>,
    /// File holding the token.
    pub file_path: Seq<char>,
    /// One-based line.
    pub line: usize,
    /// One-based start column.
    pub column_start: usize,
    /// One-based end column.
    pub column_end: usize,
    /// Token class.
    pub token_type: Seq<char>,
}

impl DeepView for SemanticToken {
    type V = SemanticTokenView;

    open spec fn deep_view(&self) -> SemanticTokenView {
        SemanticTokenView {
            id: self.id.deep_view(),
            file_path: self.file_path.deep_view(),
            line: self.line,
            column_start: self.column_start,
            column_end: self.column_end,
            token_type: self.token_type.deep_view(),
        }
    }
}

impl View for SemanticToken {
    type V = SemanticTokenView;

    open spec fn view(&self) -> SemanticTokenView {
        self.deep_view()
    }
}

impl Dup for SemanticToken {
    fn dup(&self) -> (r: Self) {
        SemanticToken {
            id: self.id.dup(),
            file_path: self.file_path.dup(),
            line: self.line,
            column_start: self.column_start,
            column_end: self.column_end,
            token_type: self.token_type.dup(),
        }
    }
}

/// A status reported by the host for a resource.
#[derive(Clone, Debug)]
pub struct HostStatus {
    /// Status kind.
    pub kind: String,
    /// File the status is about.
    pub path: String,
    /// Revision of the command it answers.
    pub command_revision: u32,
    /// Diagnostics it carries.
    pub diagnostics: Vec<Diagnostic>,
    /// Error, if any.
    pub error: Option<String>,
    /// Revision of the status itself.
    pub status_revision: u32,
}

/// What a `HostStatus` holds, as mathematical values.
pub struct HostStatusView {
    /// Status kind.
    pub kind: Seq<char>,
    /// File the status is about.
    pub path: Seq<char>,
    /// Revision of the command it answers.
    pub command_revision: u32,
    /// Diagnostics it carries.
    pub diagnostics: Seq<DiagnosticView>,
    /// Error, if any.
    pub error: Option<Seq<char>>,
    /// Revision of the status itself.
    pub status_revision: u32,
}

impl DeepView for HostStatus {
    type V = HostStatusView;

    open spec fn deep_view(&self) -> HostStatusView {
        HostStatusView {
            kind: self.kind.deep_view(),
            path: self.path.deep_view(),
            command_revision: self.command_revision,
            diagnostics: self.diagnostics.deep_view(),
            error: self.error.deep_view(),
            status_revision: self.status_revision,
        }
    }
}

impl View for HostStatus {
    type V = HostStatusView;

    open spec fn view(&self) -> HostStatusView {
        self.deep_view()
    }
}

impl Dup for HostStatus {
    fn dup(&self) -> (r: Self) {
        HostStatus {
            kind: self.kind.dup(),
            path: self.path.dup(),
            command_revision: self.command_revision,
            diagnostics: self.diagnostics.dup(),
            error: self.error.dup(),
            status_revision: self.status_revision,
        }
    }
}

/// The canonical inputs of the workspace.
#[derive(Clone, Debug)]
pub struct CanonicalInputs {
    /// Checked-out branch.
    pub active_branch: String,
    /// Files by path.
    pub files: StrMap<FileRecord>,
    /// Open editor tabs.
    pub open_editors: Vec<String>,
    /// Focused tab.
    pub active_editor: Option<String>,
    /// Compiler configuration.
    pub compiler_config: CompilerConfig,
    /// Whether generated files take part.
    pub generated_files_enabled: bool,
    /// Host statuses received.
    pub host_statuses: Vec<HostStatus>,
    /// Revision of the inputs.
    pub scenario_revision: u32,
}

/// What a `CanonicalInputs` holds, as mathematical values.
pub struct CanonicalInputsView {
    /// Checked-out branch.
    pub active_branch: Seq<char>,
    /// Files by path.
    pub files: Map<Seq<char>, FileRecordView>,
    /// Open editor tabs.
    pub open_editors: Seq<Seq<char>>,
    /// Focused tab.
    pub active_editor: Option<Seq<char>>,
    /// Compiler configuration.
    pub compiler_config: CompilerConfig,
    /// Whether generated files take part.
    pub generated_files_enabled: bool,
    /// Host statuses received.
    pub host_statuses: Seq<HostStatusView>,
    /// Revision of the inputs.
    pub scenario_revision: u32,
}

impl DeepView for CanonicalInputs {
    type V = CanonicalInputsView;

    open spec fn deep_view(&self) -> CanonicalInputsView {
        CanonicalInputsView {
            active_branch: self.active_branch.deep_view(),
            files: self.files.deep_view(),
            open_editors: self.open_editors.deep_view(),
            active_editor: self.active_editor.deep_view(),
            compiler_config: self.compiler_config,
            generated_files_enabled: self.generated_files_enabled,
            host_statuses: self.host_statuses.deep_view(),
            scenario_revision: self.scenario_revision,
        }
    }
}

impl View for CanonicalInputs {
    type V = CanonicalInputsView;

    open spec fn view(&self) -> CanonicalInputsView {
        self.deep_view()
    }
}

impl Dup for CanonicalInputs {
    fn dup(&self) -> (r: Self) {
        CanonicalInputs {
            active_branch: self.active_branch.dup(),
            files: self.files.dup(),
            open_editors: self.open_editors.dup(),
            active_editor: self.active_editor.dup(),
            compiler_config: self.compiler_config,
            generated_files_enabled: self.generated_files_enabled,
            host_statuses: self.host_statuses.dup(),
            scenario_revision: self.scenario_revision,
        }
    }
}

/// Why a command or frame was emitted.
#[derive(Clone, Debug)]
pub struct AuditCause {
    /// Input that changed.
    pub input_key: String,
    /// Value before.
    pub before: String,
    /// Value after.
    pub after: String,
    /// Node that changed.
    pub changed_node: String,
    /// Collection involved.
    pub collection: String,
    /// Keys added.
    pub added: Vec<String>,
    /// Keys removed.
    pub removed: Vec<String>,
    /// Keys updated.
    pub updated: Vec<String>,
    /// Explanation.
    pub reason: String,
    /// Dependency path.
    pub path: Vec<String>,
}

/// What a `AuditCause` holds, as mathematical values.
pub struct AuditCauseView {
    /// Input that changed.
    pub input_key: Seq<char>,
    /// Value before.
    pub before: Seq<char>,
    /// Value after.
    pub after: Seq<char>,
    /// Node that changed.
    pub changed_node: Seq<char>,
    /// Collection involved.
    pub collection: Seq<char>,
    /// Keys added.
    pub added: Seq<Seq<char>>,
    /// Keys removed.
    pub removed: Seq<Seq<char>>,
    /// Keys updated.
    pub updated: Seq<Seq<char>>,
    /// Explanation.
    pub reason: Seq<char>,
    /// Dependency path.
    pub path: Seq<Seq<char>>,
}

impl DeepView for AuditCause {
    type V = AuditCauseView;

    open spec fn deep_view(&self) -> AuditCauseView {
        AuditCauseView {
            input_key: self.input_key.deep_view(),
            before: self.before.deep_view(),
            after: self.after.deep_view(),
            changed_node: self.changed_node.deep_view(),
            collection: self.collection.deep_view(),
            added: self.added.deep_view(),
            removed: self.removed.deep_view(),
            updated: self.updated.deep_view(),
            reason: self.reason.deep_view(),
            path: self.path.deep_view(),
        }
    }
}

impl View for AuditCause {
    type V = AuditCauseView;

    open spec fn view(&self) -> AuditCauseView {
        self.deep_view()
    }
}

impl Dup for AuditCause {
    fn dup(&self) -> (r: Self) {
        AuditCause {
            input_key: self.input_key.dup(),
            before: self.before.dup(),
            after: self.after.dup(),
            changed_node: self.changed_node.dup(),
            collection: self.collection.dup(),
            added: self.added.dup(),
            removed: self.removed.dup(),
            updated: self.updated.dup(),
            reason: self.reason.dup(),
            path: self.path.dup(),
        }
    }
}

/// A resource lifecycle command for the host.
#[derive(Clone, Debug)]
pub struct ResourceCommand {
    /// `Open`, `Close`, `Cancel` or `Replace`.
    pub op: String,
    /// Resource key.
    pub key: String,
    /// Replaced key, if any.
    pub old_key: Option<String>,
    /// Replacing key, if any.
    pub new_key: Option<String>,
    /// Owning scope.
    pub scope: String,
    /// Revision of the command.
    pub command_revision: u32,
    /// Transition policy, if any.
    pub policy: Option<String>,
    /// Why it was emitted.
    pub cause: AuditCause,
}

/// What a `ResourceCommand` holds, as mathematical values.
pub struct ResourceCommandView {
    /// `Open`, `Close`, `Cancel` or `Replace`.
    pub op: Seq<char>,
    /// Resource key.
    pub key: Seq<char>,
    /// Replaced key, if any.
    pub old_key: Option<Seq<char>>,
    /// Replacing key, if any.
    pub new_key: Option<Seq<char>>,
    /// Owning scope.
    pub scope: Seq<char>,
    /// Revision of the command.
    pub command_revision: u32,
    /// Transition policy, if any.
    pub policy: Option<Seq<char>>,
    /// Why it was emitted.
    pub cause: AuditCauseView,
}

impl DeepView for ResourceCommand {
    type V = ResourceCommandView;

    open spec fn deep_view(&self) -> ResourceCommandView {
        ResourceCommandView {
            op: self.op.deep_view(),
            key: self.key.deep_view(),
            old_key: self.old_key.deep_view(),
            new_key: self.new_key.deep_view(),
            scope: self.scope.deep_view(),
            command_revision: self.command_revision,
            policy: self.policy.deep_view(),
            cause: self.cause.deep_view(),
        }
    }
}

impl View for ResourceCommand {
    type V = ResourceCommandView;

    open spec fn view(&self) -> ResourceCommandView {
        self.deep_view()
    }
}

impl Dup for ResourceCommand {
    fn dup(&self) -> (r: Self) {
        ResourceCommand {
            op: self.op.dup(),
            key: self.key.dup(),
            old_key: self.old_key.dup(),
            new_key: self.new_key.dup(),
            scope: self.scope.dup(),
            command_revision: self.command_revision,
            policy: self.policy.dup(),
            cause: self.cause.dup(),
        }
    }
}

/// A revisioned output frame for consumers.
#[derive(Clone, Debug)]
pub struct OutputFrame {
    /// Frame kind.
    pub kind: String,
    /// Output the frame is for.
    pub output_key: String,
    /// Owning scope.
    pub scope: String,
    /// Revision of the frame.
    pub revision: u32,
    /// File the frame is about.
    pub file_path: Option<String>,
    /// Diagnostics payload.
    pub diagnostics: Vec<Diagnostic>,
    /// Links payload.
    pub links: Vec<DocumentLink>,
    /// Tokens payload.
    pub tokens: Vec<SemanticToken>,
    /// Status, if any.
    pub status: Option<String>,
    /// Why it was emitted.
    pub cause: AuditCause,
}

/// What a `OutputFrame` holds, as mathematical values.
pub struct OutputFrameView {
    /// Frame kind.
    pub kind: Seq<char>,
    /// Output the frame is for.
    pub output_key: Seq<char>,
    /// Owning scope.
    pub scope: Seq<char>,
    /// Revision of the frame.
    pub revision: u32,
    /// File the frame is about.
    pub file_path: Option<Seq<char>>,
    /// Diagnostics payload.
    pub diagnostics: Seq<DiagnosticView>,
    /// Links payload.
    pub links: Seq<DocumentLinkView>,
    /// Tokens payload.
    pub tokens: Seq<SemanticTokenView>,
    /// Status, if any.
    pub status: Option<Seq<char>>,
    /// Why it was emitted.
    pub cause: AuditCauseView,
}

impl DeepView for OutputFrame {
    type V = OutputFrameView;

    open spec fn deep_view(&self) -> OutputFrameView {
        OutputFrameView {
            kind: self.kind.deep_view(),
            output_key: self.output_key.deep_view(),
            scope: self.scope.deep_view(),
            revision: self.revision,
            file_path: self.file_path.deep_view(),
            diagnostics: self.diagnostics.deep_view(),
            links: self.links.deep_view(),
            tokens: self.tokens.deep_view(),
            status: self.status.deep_view(),
            cause: self.cause.deep_view(),
        }
    }
}

impl View for OutputFrame {
    type V = OutputFrameView;

    open spec fn view(&self) -> OutputFrameView {
        self.deep_view()
    }
}

impl Dup for OutputFrame {
    fn dup(&self) -> (r: Self) {
        OutputFrame {
            kind: self.kind.dup(),
            output_key: self.output_key.dup(),
            scope: self.scope.dup(),
            revision: self.revision,
            file_path: self.file_path.dup(),
            diagnostics: self.diagnostics.dup(),
            links: self.links.dup(),
            tokens: self.tokens.dup(),
            status: self.status.dup(),
            cause: self.cause.dup(),
        }
    }
}

/// Derived state computed from canonical inputs.
#[derive(Clone, Debug)]
pub struct FullState {
    /// Files in the source graph, sorted.
    pub source_files: Vec<String>,
    /// Import edges, sorted.
    pub import_edges: Vec<String>,
    /// Non-empty diagnostics by file.
    pub diagnostics_by_file: StrMap<Vec<Diagnostic>>,
    /// Links by file.
    pub links_by_file: StrMap<Vec<DocumentLink>>,
    /// Tokens by file.
    pub tokens_by_file: StrMap<Vec<SemanticToken>>,
    /// Resource demand, sorted.
    pub desired_resources: Vec<String>,
    /// Module nodes, sorted.
    pub module_graph: Vec<String>,
}

/// What a `FullState` holds, as mathematical values.
pub struct FullStateView {
    /// Files in the source graph, sorted.
    pub source_files: Seq<Seq<char>>,
    /// Import edges, sorted.
    pub import_edges: Seq<Seq<char>>,
    /// Non-empty diagnostics by file.
    pub diagnostics_by_file: Map<Seq<char>, Seq<DiagnosticView>>,
    /// Links by file.
    pub links_by_file: Map<Seq<char>, Seq<DocumentLinkView>>,
    /// Tokens by file.
    pub tokens_by_file: Map<Seq<char>, Seq<SemanticTokenView>>,
    /// Resource demand, sorted.
    pub desired_resources: Seq<Seq<char>>,
    /// Module nodes, sorted.
    pub module_graph: Seq<Seq<char>>,
}

impl DeepView for FullState {
    type V = FullStateView;

    open spec fn deep_view(&self) -> FullStateView {
        FullStateView {
            source_files: self.source_files.deep_view(),
            import_edges: self.import_edges.deep_view(),
            diagnostics_by_file: self.diagnostics_by_file.deep_view(),
            links_by_file: self.links_by_file.deep_view(),
            tokens_by_file: self.tokens_by_file.deep_view(),
            desired_resources: self.desired_resources.deep_view(),
            module_graph: self.module_graph.deep_view(),
        }
    }
}

impl View for FullState {
    type V = FullStateView;

    open spec fn view(&self) -> FullStateView {
        self.deep_view()
    }
}

impl Dup for FullState {
    fn dup(&self) -> (r: Self) {
        FullState {
            source_files: self.source_files.dup(),
            import_edges: self.import_edges.dup(),
            diagnostics_by_file: self.diagnostics_by_file.dup(),
            links_by_file: self.links_by_file.dup(),
            tokens_by_file: self.tokens_by_file.dup(),
            desired_resources: self.desired_resources.dup(),
            module_graph: self.module_graph.dup(),
        }
    }
}

/// The host-side record of one resource.
#[derive(Clone, Debug)]
pub struct ResourceLedgerEntry {
    /// Resource key.
    pub key: String,
    /// `open`, `closed` or `cancelled`.
    pub state: String,
    /// Owning scopes, sorted.
    pub owners: Vec<String>,
    /// Open commands applied.
    pub open_count: u32,
    /// Close commands applied.
    pub close_count: u32,
    /// Cancel commands applied.
    pub cancel_count: u32,
    /// Revision of the last command.
    pub last_command_revision: u32,
    /// Transaction of the last command.
    pub last_tx_id: u32,
    /// Reason of the last command.
    pub cause: String,
}

/// What a `ResourceLedgerEntry` holds, as mathematical values.
pub struct ResourceLedgerEntryView {
    /// Resource key.
    pub key: Seq<char>,
    /// `open`, `closed` or `cancelled`.
    pub state: Seq<char>,
    /// Owning scopes, sorted.
    pub owners: Seq<Seq<char>>,
    /// Open commands applied.
    pub open_count: u32,
    /// Close commands applied.
    pub close_count: u32,
    /// Cancel commands applied.
    pub cancel_count: u32,
    /// Revision of the last command.
    pub last_command_revision: u32,
    /// Transaction of the last command.
    pub last_tx_id: u32,
    /// Reason of the last command.
    pub cause: Seq<char>,
}

impl DeepView for ResourceLedgerEntry {
    type V = ResourceLedgerEntryView;

    open spec fn deep_view(&self) -> ResourceLedgerEntryView {
        ResourceLedgerEntryView {
            key: self.key.deep_view(),
            state: self.state.deep_view(),
            owners: self.owners.deep_view(),
            open_count: self.open_count,
            close_count: self.close_count,
            cancel_count: self.cancel_count,
            last_command_revision: self.last_command_revision,
            last_tx_id: self.last_tx_id,
            cause: self.cause.deep_view(),
        }
    }
}

impl View for ResourceLedgerEntry {
    type V = ResourceLedgerEntryView;

    open spec fn view(&self) -> ResourceLedgerEntryView {
        self.deep_view()
    }
}

impl Dup for ResourceLedgerEntry {
    fn dup(&self) -> (r: Self) {
        ResourceLedgerEntry {
            key: self.key.dup(),
            state: self.state.dup(),
            owners: self.owners.dup(),
            open_count: self.open_count,
            close_count: self.close_count,
            cancel_count: self.cancel_count,
            last_command_revision: self.last_command_revision,
            last_tx_id: self.last_tx_id,
            cause: self.cause.dup(),
        }
    }
}

/// The consumer-side state built from output frames.
#[derive(Clone, Debug)]
pub struct OutputLedger {
    /// Diagnostics by file.
    pub diagnostics_by_file: StrMap<Vec<Diagnostic>>,
    /// Links by file.
    pub links_by_file: StrMap<Vec<DocumentLink>>,
    /// Tokens by file.
    pub tokens_by_file: StrMap<Vec<SemanticToken>>,
    /// Last revision by output key.
    pub revisions_by_output_key: StrMap<u32>,
}

/// What a `OutputLedger` holds, as mathematical values.
pub struct OutputLedgerView {
    /// Diagnostics by file.
    pub diagnostics_by_file: Map<Seq<char>, Seq<DiagnosticView>>,
    /// Links by file.
    pub links_by_file: Map<Seq<char>, Seq<DocumentLinkView>>,
    /// Tokens by file.
    pub tokens_by_file: Map<Seq<char>, Seq<SemanticTokenView>>,
    /// Last revision by output key.
    pub revisions_by_output_key: Map<Seq<char>, u32>,
}

impl DeepView for OutputLedger {
    type V = OutputLedgerView;

    open spec fn deep_view(&self) -> OutputLedgerView {
        OutputLedgerView {
            diagnostics_by_file: self.diagnostics_by_file.deep_view(),
            links_by_file: self.links_by_file.deep_view(),
            tokens_by_file: self.tokens_by_file.deep_view(),
            revisions_by_output_key: self.revisions_by_output_key.deep_view(),
        }
    }
}

impl View for OutputLedger {
    type V = OutputLedgerView;

    open spec fn view(&self) -> OutputLedgerView {
        self.deep_view()
    }
}

impl Dup for OutputLedger {
    fn dup(&self) -> (r: Self) {
        OutputLedger {
            diagnostics_by_file: self.diagnostics_by_file.dup(),
            links_by_file: self.links_by_file.dup(),
            tokens_by_file: self.tokens_by_file.dup(),
            revisions_by_output_key: self.revisions_by_output_key.dup(),
        }
    }
}

/// A scope lifecycle event.
#[derive(Clone, Debug)]
pub struct ScopeEvent {
    /// `Open` or `Close`.
    pub op: String,
    /// Scope name.
    pub scope: String,
    /// Explanation.
    pub reason: String,
}

/// What a `ScopeEvent` holds, as mathematical values.
pub struct ScopeEventView {
    /// `Open` or `Close`.
    pub op: Seq<char>,
    /// Scope name.
    pub scope: Seq<char>,
    /// Explanation.
    pub reason: Seq<char>,
}

impl DeepView for ScopeEvent {
    type V = ScopeEventView;

    open spec fn deep_view(&self) -> ScopeEventView {
        ScopeEventView {
            op: self.op.deep_view(),
            scope: self.scope.deep_view(),
            reason: self.reason.deep_view(),
        }
    }
}

impl View for ScopeEvent {
    type V = ScopeEventView;

    open spec fn view(&self) -> ScopeEventView {
        self.deep_view()
    }
}

impl Dup for ScopeEvent {
    fn dup(&self) -> (r: Self) {
        ScopeEvent {
            op: self.op.dup(),
            scope: self.scope.dup(),
            reason: self.reason.dup(),
        }
    }
}

/// How a host status was classified.
#[derive(Clone, Debug)]
pub struct HostStatusEvent {
    /// The status.
    pub status: HostStatus,
    /// Classification.
    pub classification: String,
    /// Explanation.
    pub reason: String,
    /// Effect on outputs.
    pub effect: String,
}

/// What a `HostStatusEvent` holds, as mathematical values.
pub struct HostStatusEventView {
    /// The status.
    pub status: HostStatusView,
    /// Classification.
    pub classification: Seq<char>,
    /// Explanation.
    pub reason: Seq<char>,
    /// Effect on outputs.
    pub effect: Seq<char>,
}

impl DeepView for HostStatusEvent {
    type V = HostStatusEventView;

    open spec fn deep_view(&self) -> HostStatusEventView {
        HostStatusEventView {
            status: self.status.deep_view(),
            classification: self.classification.deep_view(),
            reason: self.reason.deep_view(),
            effect: self.effect.deep_view(),
        }
    }
}

impl View for HostStatusEvent {
    type V = HostStatusEventView;

    open spec fn view(&self) -> HostStatusEventView {
        self.deep_view()
    }
}

impl Dup for HostStatusEvent {
    fn dup(&self) -> (r: Self) {
        HostStatusEvent {
            status: self.status.dup(),
            classification: self.classification.dup(),
            reason: self.reason.dup(),
            effect: self.effect.dup(),
        }
    }
}

/// The outcome of one invariant check.
#[derive(Clone, Debug)]
pub struct InvariantCheck {
    /// Stable identity.
    pub id: String,
    /// Human-readable label.
    pub label: String,
    /// `pass` or `fail`.
    pub status: String,
    /// Failure details, empty on success.
    pub details: String,
}

/// What a `InvariantCheck` holds, as mathematical values.
pub struct InvariantCheckView {
    /// Stable identity.
    pub id: Seq<char>,
    /// Human-readable label.
    pub label: Seq<char>,
    /// `pass` or `fail`.
    pub status: Seq<char>,
    /// Failure details, empty on success.
    pub details: Seq<char>,
}

impl DeepView for InvariantCheck {
    type V = InvariantCheckView;

    open spec fn deep_view(&self) -> InvariantCheckView {
        InvariantCheckView {
            id: self.id.deep_view(),
            label: self.label.deep_view(),
            status: self.status.deep_view(),
            details: self.details.deep_view(),
        }
    }
}

impl View for InvariantCheck {
    type V = InvariantCheckView;

    open spec fn view(&self) -> InvariantCheckView {
        self.deep_view()
    }
}

impl Dup for InvariantCheck {
    fn dup(&self) -> (r: Self) {
        InvariantCheck {
            id: self.id.dup(),
            label: self.label.dup(),
            status: self.status.dup(),
            details: self.details.dup(),
        }
    }
}

/// The structural diff of a collection.
#[derive(Clone, Debug)]
pub struct CollectionDiff {
    /// Collection name.
    pub collection: String,
    /// Keys added, sorted.
    pub added: Vec<String>,
    /// Keys removed, sorted.
    pub removed: Vec<String>,
    /// Keys updated.
    pub updated: Vec<String>,
}

/// What a `CollectionDiff` holds, as mathematical values.
pub struct CollectionDiffView {
    /// Collection name.
    pub collection: Seq<char>,
    /// Keys added, sorted.
    pub added: Seq<Seq<char>>,
    /// Keys removed, sorted.
    pub removed: Seq<Seq<char>>,
    /// Keys updated.
    pub updated: Seq<Seq<char>>,
}

impl DeepView for CollectionDiff {
    type V = CollectionDiffView;

    open spec fn deep_view(&self) -> CollectionDiffView {
        CollectionDiffView {
            collection: self.collection.deep_view(),
            added: self.added.deep_view(),
            removed: self.removed.deep_view(),
            updated: self.updated.deep_view(),
        }
    }
}

impl View for CollectionDiff {
    type V = CollectionDiffView;

    open spec fn view(&self) -> CollectionDiffView {
        self.deep_view()
    }
}

impl Dup for CollectionDiff {
    fn dup(&self) -> (r: Self) {
        CollectionDiff {
            collection: self.collection.dup(),
            added: self.added.dup(),
            removed: self.removed.dup(),
            updated: self.updated.dup(),
        }
    }
}

/// A change of one canonical input.
#[derive(Clone, Debug)]
pub struct InputChange {
    /// Input name.
    pub key: String,
    /// Rendering before.
    pub before: String,
    /// Rendering after.
    pub after: String,
}

/// What a `InputChange` holds, as mathematical values.
pub struct InputChangeView {
    /// Input name.
    pub key: Seq<char>,
    /// Rendering before.
    pub before: Seq<char>,
    /// Rendering after.
    pub after: Seq<char>,
}

impl DeepView for InputChange {
    type V = InputChangeView;

    open spec fn deep_view(&self) -> InputChangeView {
        InputChangeView {
            key: self.key.deep_view(),
            before: self.before.deep_view(),
            after: self.after.deep_view(),
        }
    }
}

impl View for InputChange {
    type V = InputChangeView;

    open spec fn view(&self) -> InputChangeView {
        self.deep_view()
    }
}

impl Dup for InputChange {
    fn dup(&self) -> (r: Self) {
        InputChange {
            key: self.key.dup(),
            before: self.before.dup(),
            after: self.after.dup(),
        }
    }
}

/// A derived node that recomputed.
#[derive(Clone, Debug)]
pub struct ChangedNode {
    /// Node name.
    pub id: String,
    /// Summary.
    pub summary: String,
}

/// What a `ChangedNode` holds, as mathematical values.
pub struct ChangedNodeView {
    /// Node name.
    pub id: Seq<char>,
    /// Summary.
    pub summary: Seq<char>,
}

impl DeepView for ChangedNode {
    type V = ChangedNodeView;

    open spec fn deep_view(&self) -> ChangedNodeView {
        ChangedNodeView {
            id: self.id.deep_view(),
            summary: self.summary.deep_view(),
        }
    }
}

impl View for ChangedNode {
    type V = ChangedNodeView;

    open spec fn view(&self) -> ChangedNodeView {
        self.deep_view()
    }
}

impl Dup for ChangedNode {
    fn dup(&self) -> (r: Self) {
        ChangedNode {
            id: self.id.dup(),
            summary: self.summary.dup(),
        }
    }
}

/// The receipt of one transaction.
#[derive(Clone, Debug)]
pub struct TransactionTrace {
    /// Transaction number.
    pub tx_id: u32,
    /// Input revision after the transaction.
    pub revision: u32,
    /// Whether the transaction ran in trellis mode, where the plans are
    /// those of the library's model of the reconciling graph.
    pub core_backed: bool,
    /// The modelled graph transaction, in trellis mode.
    pub core_transaction_id: Option<u64>,
    /// The modelled graph revision, in trellis mode.
    pub core_revision: Option<u64>,
    /// What happened.
    pub label: String,
    /// Inputs that changed.
    pub input_changes: Vec<InputChange>,
    /// Nodes that recomputed.
    pub changed_nodes: Vec<ChangedNode>,
    /// Collection diffs.
    pub collection_diffs: Vec<CollectionDiff>,
    /// Resource plan.
    pub resource_commands: Vec<ResourceCommand>,
    /// Output frames.
    pub output_frames: Vec<OutputFrame>,
    /// Scope events.
    pub scope_events: Vec<ScopeEvent>,
    /// Host status classifications.
    pub host_status_events: Vec<HostStatusEvent>,
    /// Invariant outcomes.
    pub invariant_checks: Vec<InvariantCheck>,
    /// Audit edges.
    pub audit_edges: Vec<String>,
}

/// What a `TransactionTrace` holds, as mathematical values.
pub struct TransactionTraceView {
    /// Transaction number.
    pub tx_id: u32,
    /// Input revision after the transaction.
    pub revision: u32,
    /// Whether the transaction ran in trellis mode, where the plans are
    /// those of the library's model of the reconciling graph.
    pub core_backed: bool,
    /// The modelled graph transaction, in trellis mode.
    pub core_transaction_id: Option<u64>,
    /// The modelled graph revision, in trellis mode.
    pub core_revision: Option<u64>,
    /// What happened.
    pub label: Seq<char>,
    /// Inputs that changed.
    pub input_changes: Seq<InputChangeView>,
    /// Nodes that recomputed.
    pub changed_nodes: Seq<ChangedNodeView>,
    /// Collection diffs.
    pub collection_diffs: Seq<CollectionDiffView>,
    /// Resource plan.
    pub resource_commands: Seq<ResourceCommandView>,
    /// Output frames.
    pub output_frames: Seq<OutputFrameView>,
    /// Scope events.
    pub scope_events: Seq<ScopeEventView>,
    /// Host status classifications.
    pub host_status_events: Seq<HostStatusEventView>,
    /// Invariant outcomes.
    pub invariant_checks: Seq<InvariantCheckView>,
    /// Audit edges.
    pub audit_edges: Seq<Seq<char>>,
}

impl DeepView for TransactionTrace {
    type V = TransactionTraceView;

    open spec fn deep_view(&self) -> TransactionTraceView {
        TransactionTraceView {
            tx_id: self.tx_id,
            revision: self.revision,
            core_backed: self.core_backed,
            core_transaction_id: self.core_transaction_id.deep_view(),
            core_revision: self.core_revision.deep_view(),
            label: self.label.deep_view(),
            input_changes: self.input_changes.deep_view(),
            changed_nodes: self.changed_nodes.deep_view(),
            collection_diffs: self.collection_diffs.deep_view(),
            resource_commands: self.resource_commands.deep_view(),
            output_frames: self.output_frames.deep_view(),
            scope_events: self.scope_events.deep_view(),
            host_status_events: self.host_status_events.deep_view(),
            invariant_checks: self.invariant_checks.deep_view(),
            audit_edges: self.audit_edges.deep_view(),
        }
    }
}

impl View for TransactionTrace {
    type V = TransactionTraceView;

    open spec fn view(&self) -> TransactionTraceView {
        self.deep_view()
    }
}

impl Dup for TransactionTrace {
    fn dup(&self) -> (r: Self) {
        TransactionTrace {
            tx_id: self.tx_id,
            revision: self.revision,
            core_backed: self.core_backed,
            core_transaction_id: self.core_transaction_id.dup(),
            core_revision: self.core_revision.dup(),
            label: self.label.dup(),
            input_changes: self.input_changes.dup(),
            changed_nodes: self.changed_nodes.dup(),
            collection_diffs: self.collection_diffs.dup(),
            resource_commands: self.resource_commands.dup(),
            output_frames: self.output_frames.dup(),
            scope_events: self.scope_events.dup(),
            host_status_events: self.host_status_events.dup(),
            invariant_checks: self.invariant_checks.dup(),
            audit_edges: self.audit_edges.dup(),
        }
    }
}

/// Which bugs the naive reconciler reproduces.
#[derive(Clone, Debug)]
pub struct NaiveBugPolicy {
    /// Keep diagnostics of deleted files.
    pub skip_clear_diagnostics_for_deleted_file: bool,
    /// Skip rebaselining links after a rename.
    pub skip_document_link_rebaseline: bool,
    /// Never close file watchers.
    pub skip_watcher_close: bool,
    /// Publish stale analysis results.
    pub accept_stale_analysis_results: bool,
    /// Skip clearing outputs of closed scopes.
    pub skip_scope_close_output_clear: bool,
}

/// What a `NaiveBugPolicy` holds, as mathematical values.
pub struct NaiveBugPolicyView {
    /// Keep diagnostics of deleted files.
    pub skip_clear_diagnostics_for_deleted_file: bool,
    /// Skip rebaselining links after a rename.
    pub skip_document_link_rebaseline: bool,
    /// Never close file watchers.
    pub skip_watcher_close: bool,
    /// Publish stale analysis results.
    pub accept_stale_analysis_results: bool,
    /// Skip clearing outputs of closed scopes.
    pub skip_scope_close_output_clear: bool,
}

impl DeepView for NaiveBugPolicy {
    type V = NaiveBugPolicyView;

    open spec fn deep_view(&self) -> NaiveBugPolicyView {
        NaiveBugPolicyView {
            skip_clear_diagnostics_for_deleted_file: self.skip_clear_diagnostics_for_deleted_file,
            skip_document_link_rebaseline: self.skip_document_link_rebaseline,
            skip_watcher_close: self.skip_watcher_close,
            accept_stale_analysis_results: self.accept_stale_analysis_results,
            skip_scope_close_output_clear: self.skip_scope_close_output_clear,
        }
    }
}

impl View for NaiveBugPolicy {
    type V = NaiveBugPolicyView;

    open spec fn view(&self) -> NaiveBugPolicyView {
        self.deep_view()
    }
}

impl Dup for NaiveBugPolicy {
    fn dup(&self) -> (r: Self) {
        NaiveBugPolicy {
            skip_clear_diagnostics_for_deleted_file: self.skip_clear_diagnostics_for_deleted_file,
            skip_document_link_rebaseline: self.skip_document_link_rebaseline,
            skip_watcher_close: self.skip_watcher_close,
            accept_stale_analysis_results: self.accept_stale_analysis_results,
            skip_scope_close_output_clear: self.skip_scope_close_output_clear,
        }
    }
}

/// What a consumer can observe.
#[derive(Clone, Debug)]
pub struct ObservableState {
    /// Diagnostics by file.
    pub diagnostics_by_file: StrMap<Vec<Diagnostic>>,
    /// Links by file.
    pub links_by_file: StrMap<Vec<DocumentLink>>,
    /// Tokens by file.
    pub tokens_by_file: StrMap<Vec<SemanticToken>>,
    /// Ledger entries by key.
    pub resources: Vec<ResourceLedgerEntry>,
    /// Open analysis jobs.
    pub active_jobs: Vec<String>,
    /// Open watchers.
    pub watchers: Vec<String>,
}

/// What a `ObservableState` holds, as mathematical values.
pub struct ObservableStateView {
    /// Diagnostics by file.
    pub diagnostics_by_file: Map<Seq<char>, Seq<DiagnosticView>>,
    /// Links by file.
    pub links_by_file: Map<Seq<char>, Seq<DocumentLinkView>>,
    /// Tokens by file.
    pub tokens_by_file: Map<Seq<char>, Seq<SemanticTokenView>>,
    /// Ledger entries by key.
    pub resources: Seq<ResourceLedgerEntryView>,
    /// Open analysis jobs.
    pub active_jobs: Seq<Seq<char>>,
    /// Open watchers.
    pub watchers: Seq<Seq<char>>,
}

impl DeepView for ObservableState {
    type V = ObservableStateView;

    open spec fn deep_view(&self) -> ObservableStateView {
        ObservableStateView {
            diagnostics_by_file: self.diagnostics_by_file.deep_view(),
            links_by_file: self.links_by_file.deep_view(),
            tokens_by_file: self.tokens_by_file.deep_view(),
            resources: self.resources.deep_view(),
            active_jobs: self.active_jobs.deep_view(),
            watchers: self.watchers.deep_view(),
        }
    }
}

impl View for ObservableState {
    type V = ObservableStateView;

    open spec fn view(&self) -> ObservableStateView {
        self.deep_view()
    }
}

impl Dup for ObservableState {
    fn dup(&self) -> (r: Self) {
        ObservableState {
            diagnostics_by_file: self.diagnostics_by_file.dup(),
            links_by_file: self.links_by_file.dup(),
            tokens_by_file: self.tokens_by_file.dup(),
            resources: self.resources.dup(),
            active_jobs: self.active_jobs.dup(),
            watchers: self.watchers.dup(),
        }
    }
}

/// The outcome of replaying a trace.
#[derive(Clone, Debug)]
pub struct ReplayResult {
    /// `pass` or `fail`.
    pub status: String,
    /// Transactions in the replayed trace.
    pub trace_length: usize,
    /// Replay checks.
    pub checks: Vec<InvariantCheck>,
    /// Whether the final observable states agree.
    pub final_observable_matches: bool,
}

/// What a `ReplayResult` holds, as mathematical values.
pub struct ReplayResultView {
    /// `pass` or `fail`.
    pub status: Seq<char>,
    /// Transactions in the replayed trace.
    pub trace_length: usize,
    /// Replay checks.
    pub checks: Seq<InvariantCheckView>,
    /// Whether the final observable states agree.
    pub final_observable_matches: bool,
}

impl DeepView for ReplayResult {
    type V = ReplayResultView;

    open spec fn deep_view(&self) -> ReplayResultView {
        ReplayResultView {
            status: self.status.deep_view(),
            trace_length: self.trace_length,
            checks: self.checks.deep_view(),
            final_observable_matches: self.final_observable_matches,
        }
    }
}

impl View for ReplayResult {
    type V = ReplayResultView;

    open spec fn view(&self) -> ReplayResultView {
        self.deep_view()
    }
}

impl Dup for ReplayResult {
    fn dup(&self) -> (r: Self) {
        ReplayResult {
            status: self.status.dup(),
            trace_length: self.trace_length,
            checks: self.checks.dup(),
            final_observable_matches: self.final_observable_matches,
        }
    }
}

/// The whole state of the observatory.
#[derive(Clone, Debug)]
pub struct AppState {
    /// `trellis` or `naive`.
    pub mode: String,
    /// Naive bug switches.
    pub bug_policy: NaiveBugPolicy,
    /// Canonical inputs.
    pub inputs: CanonicalInputs,
    /// Derived state.
    pub full: FullState,
    /// Resource ledger by key.
    pub resource_ledger: StrMap<ResourceLedgerEntry>,
    /// Output ledger.
    pub output_ledger: OutputLedger,
    /// Transaction receipts.
    pub traces: Vec<TransactionTrace>,
    /// Actions applied.
    pub action_log: Vec<Action>,
    /// Analysis command revision by file.
    pub analysis_revisions: StrMap<u32>,
    /// Closed scopes.
    pub closed_scopes: Vec<String>,
    /// Selected explanation.
    pub selected_why: Option<String>,
    /// Last replay outcome.
    pub replay_result: Option<ReplayResult>,
}

/// What a `AppState` holds, as mathematical values.
pub struct AppStateView {
    /// `trellis` or `naive`.
    pub mode: Seq<char>,
    /// Naive bug switches.
    pub bug_policy: NaiveBugPolicyView,
    /// Canonical inputs.
    pub inputs: CanonicalInputsView,
    /// Derived state.
    pub full: FullStateView,
    /// Resource ledger by key.
    pub resource_ledger: Map<Seq<char>, ResourceLedgerEntryView>,
    /// Output ledger.
    pub output_ledger: OutputLedgerView,
    /// Transaction receipts.
    pub traces: Seq<TransactionTraceView>,
    /// Actions applied.
    pub action_log: Seq<ActionView>,
    /// Analysis command revision by file.
    pub analysis_revisions: Map<Seq<char>, u32>,
    /// Closed scopes.
    pub closed_scopes: Seq<Seq<char>>,
    /// Selected explanation.
    pub selected_why: Option<Seq<char>>,
    /// Last replay outcome.
    pub replay_result: Option<ReplayResultView>,
}

impl DeepView for AppState {
    type V = AppStateView;

    open spec fn deep_view(&self) -> AppStateView {
        AppStateView {
            mode: self.mode.deep_view(),
            bug_policy: self.bug_policy.deep_view(),
            inputs: self.inputs.deep_view(),
            full: self.full.deep_view(),
            resource_ledger: self.resource_ledger.deep_view(),
            output_ledger: self.output_ledger.deep_view(),
            traces: self.traces.deep_view(),
            action_log: self.action_log.deep_view(),
            analysis_revisions: self.analysis_revisions.deep_view(),
            closed_scopes: self.closed_scopes.deep_view(),
            selected_why: self.selected_why.deep_view(),
            replay_result: self.replay_result.deep_view(),
        }
    }
}

impl View for AppState {
    type V = AppStateView;

    open spec fn view(&self) -> AppStateView {
        self.deep_view()
    }
}

impl Dup for AppState {
    fn dup(&self) -> (r: Self) {
        AppState {
            mode: self.mode.dup(),
            bug_policy: self.bug_policy.dup(),
            inputs: self.inputs.dup(),
            full: self.full.dup(),
            resource_ledger: self.resource_ledger.dup(),
            output_ledger: self.output_ledger.dup(),
            traces: self.traces.dup(),
            action_log: self.action_log.dup(),
            analysis_revisions: self.analysis_revisions.dup(),
            closed_scopes: self.closed_scopes.dup(),
            selected_why: self.selected_why.dup(),
            replay_result: self.replay_result.dup(),
        }
    }
}

impl SameView for Diagnostic {
    fn same_view(&self, other: &Self) -> (b: bool) {
        self.id.same_view(&other.id) && self.file_path.same_view(&other.file_path) && self.line
            == other.line && self.column == other.column && self.severity.same_view(&other.severity)
            && self.message.same_view(&other.message) && self.source.same_view(&other.source)
    }
}

impl SameView for DocumentLink {
    fn same_view(&self, other: &Self) -> (b: bool) {
        self.id.same_view(&other.id) && self.file_path.same_view(&other.file_path)
            && self.target_path.same_view(&other.target_path) && self.line == other.line
            && self.column_start == other.column_start && self.column_end == other.column_end
            && self.status.same_view(&other.status)
    }
}

impl SameView for SemanticToken {
    fn same_view(&self, other: &Self) -> (b: bool) {
        self.id.same_view(&other.id) && self.file_path.same_view(&other.file_path) && self.line
            == other.line && self.column_start == other.column_start && self.column_end
            == other.column_end && self.token_type.same_view(&other.token_type)
    }
}

impl SameView for ResourceLedgerEntry {
    fn same_view(&self, other: &Self) -> (b: bool) {
        self.key.same_view(&other.key) && self.state.same_view(&other.state) && self.owners.same_view(
            &other.owners,
        ) && self.open_count == other.open_count && self.close_count == other.close_count
            && self.cancel_count == other.cancel_count && self.last_command_revision
            == other.last_command_revision && self.last_tx_id == other.last_tx_id
            && self.cause.same_view(&other.cause)
    }
}

impl SameView for ObservableState {
    fn same_view(&self, other: &Self) -> (b: bool) {
        self.diagnostics_by_file.same_view(&other.diagnostics_by_file) && self.links_by_file.same_view(
            &other.links_by_file,
        ) && self.tokens_by_file.same_view(&other.tokens_by_file) && self.resources.same_view(
            &other.resources,
        ) && self.active_jobs.same_view(&other.active_jobs) && self.watchers.same_view(
            &other.watchers,
        )
    }
}

} // verus!
