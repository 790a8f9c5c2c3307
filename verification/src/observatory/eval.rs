//! Bug capsules: seeded-bug scenarios, each run once in trellis mode and
//! once in naive mode with its bug switched on, and reported.
use vstd::prelude::*;
use crate::dup::Dup;
use crate::observatory::engine::{app_wf, dispatch_action, dispatch_ok, initial_app_state, initial_ok};
use crate::observatory::replay::lemma_dispatch_growth;
use crate::observatory::types::{Action, ActionView, AppState, AppStateView, InvariantCheck, InvariantCheckView};
use crate::strmap::views;
use crate::text::{append, owned, str_eq};

verus! {

/// A seeded-bug scenario that can be discovered and run.
#[derive(Clone, Debug)]
pub struct BugCapsule {
    /// Stable name.
    pub name: String,
    /// Short title.
    pub title: String,
    /// The lifecycle rule the bug breaks.
    pub lifecycle_invariant: String,
    /// Checks the seeded bug must fail.
    pub expected_failure_ids: Vec<String>,
}

/// What a `BugCapsule` holds, as mathematical values.
pub struct BugCapsuleView {
    /// Stable name.
    pub name: Seq<char>,
    /// Short title.
    pub title: Seq<char>,
    /// The lifecycle rule the bug breaks.
    pub lifecycle_invariant: Seq<char>,
    /// Checks the seeded bug must fail.
    pub expected_failure_ids: Seq<Seq<char>>,
}

impl DeepView for BugCapsule {
    type V = BugCapsuleView;

    open spec fn deep_view(&self) -> BugCapsuleView {
        BugCapsuleView {
            name: self.name.deep_view(),
            title: self.title.deep_view(),
            lifecycle_invariant: self.lifecycle_invariant.deep_view(),
            expected_failure_ids: self.expected_failure_ids.deep_view(),
        }
    }
}

impl View for BugCapsule {
    type V = BugCapsuleView;

    open spec fn view(&self) -> BugCapsuleView {
        self.deep_view()
    }
}

impl Dup for BugCapsule {
    fn dup(&self) -> (r: Self) {
        BugCapsule {
            name: self.name.dup(),
            title: self.title.dup(),
            lifecycle_invariant: self.lifecycle_invariant.dup(),
            expected_failure_ids: self.expected_failure_ids.dup(),
        }
    }
}

/// A failed check of a capsule run.
#[derive(Clone, Debug)]
pub struct CapsuleFailure {
    /// Check identity.
    pub id: String,
    /// Check label.
    pub label: String,
    /// Component that reported it.
    pub source: String,
    /// Details, or a placeholder when the check gave none.
    pub details: String,
    /// One-line summary.
    pub failure_text: String,
}

/// What a `CapsuleFailure` holds, as mathematical values.
pub struct CapsuleFailureView {
    /// Check identity.
    pub id: Seq<char>,
    /// Check label.
    pub label: Seq<char>,
    /// Component that reported it.
    pub source: Seq<char>,
    /// Details, or a placeholder when the check gave none.
    pub details: Seq<char>,
    /// One-line summary.
    pub failure_text: Seq<char>,
}

impl DeepView for CapsuleFailure {
    type V = CapsuleFailureView;

    open spec fn deep_view(&self) -> CapsuleFailureView {
        CapsuleFailureView {
            id: self.id.deep_view(),
            label: self.label.deep_view(),
            source: self.source.deep_view(),
            details: self.details.deep_view(),
            failure_text: self.failure_text.deep_view(),
        }
    }
}

impl View for CapsuleFailure {
    type V = CapsuleFailureView;

    open spec fn view(&self) -> CapsuleFailureView {
        self.deep_view()
    }
}

impl Dup for CapsuleFailure {
    fn dup(&self) -> (r: Self) {
        CapsuleFailure {
            id: self.id.dup(),
            label: self.label.dup(),
            source: self.source.dup(),
            details: self.details.dup(),
            failure_text: self.failure_text.dup(),
        }
    }
}

/// One path of a capsule: its mode and the checks of its last receipt.
#[derive(Clone, Debug)]
pub struct CapsuleRun {
    /// `trellis` or `naive`.
    pub mode: String,
    /// Whether every check passed.
    pub passed: bool,
    /// Label of the last receipt.
    pub trace_label: String,
    /// Number of receipts.
    pub transaction_count: usize,
    /// The checks that failed.
    pub failed_checks: Vec<CapsuleFailure>,
}

/// What a `CapsuleRun` holds, as mathematical values.
pub struct CapsuleRunView {
    /// `trellis` or `naive`.
    pub mode: Seq<char>,
    /// Whether every check passed.
    pub passed: bool,
    /// Label of the last receipt.
    pub trace_label: Seq<char>,
    /// Number of receipts.
    pub transaction_count: usize,
    /// The checks that failed.
    pub failed_checks: Seq<CapsuleFailureView>,
}

impl DeepView for CapsuleRun {
    type V = CapsuleRunView;

    open spec fn deep_view(&self) -> CapsuleRunView {
        CapsuleRunView {
            mode: self.mode.deep_view(),
            passed: self.passed,
            trace_label: self.trace_label.deep_view(),
            transaction_count: self.transaction_count,
            failed_checks: self.failed_checks.deep_view(),
        }
    }
}

impl View for CapsuleRun {
    type V = CapsuleRunView;

    open spec fn view(&self) -> CapsuleRunView {
        self.deep_view()
    }
}

impl Dup for CapsuleRun {
    fn dup(&self) -> (r: Self) {
        CapsuleRun {
            mode: self.mode.dup(),
            passed: self.passed,
            trace_label: self.trace_label.dup(),
            transaction_count: self.transaction_count,
            failed_checks: self.failed_checks.dup(),
        }
    }
}

/// The outcome of running a capsule on both paths.
#[derive(Clone, Debug)]
pub struct BugCapsuleReport {
    /// Capsule name.
    pub name: String,
    /// Capsule title.
    pub title: String,
    /// The lifecycle rule.
    pub lifecycle_invariant: String,
    /// Checks the seeded bug must fail.
    pub expected_failure_ids: Vec<String>,
    /// Whether the seeded path failed all of them.
    pub expected_failures_detected: bool,
    /// `pass` when the success path passed and the seeded path failed as expected.
    pub status: String,
    /// The trellis path.
    pub success_path: CapsuleRun,
    /// The naive path with the bug on.
    pub seeded_bug_path: CapsuleRun,
}

/// What a `BugCapsuleReport` holds, as mathematical values.
pub struct BugCapsuleReportView {
    /// Capsule name.
    pub name: Seq<char>,
    /// Capsule title.
    pub title: Seq<char>,
    /// The lifecycle rule.
    pub lifecycle_invariant: Seq<char>,
    /// Checks the seeded bug must fail.
    pub expected_failure_ids: Seq<Seq<char>>,
    /// Whether the seeded path failed all of them.
    pub expected_failures_detected: bool,
    /// `pass` when the success path passed and the seeded path failed as expected.
    pub status: Seq<char>,
    /// The trellis path.
    pub success_path: CapsuleRunView,
    /// The naive path with the bug on.
    pub seeded_bug_path: CapsuleRunView,
}

impl DeepView for BugCapsuleReport {
    type V = BugCapsuleReportView;

    open spec fn deep_view(&self) -> BugCapsuleReportView {
        BugCapsuleReportView {
            name: self.name.deep_view(),
            title: self.title.deep_view(),
            lifecycle_invariant: self.lifecycle_invariant.deep_view(),
            expected_failure_ids: self.expected_failure_ids.deep_view(),
            expected_failures_detected: self.expected_failures_detected,
            status: self.status.deep_view(),
            success_path: self.success_path.deep_view(),
            seeded_bug_path: self.seeded_bug_path.deep_view(),
        }
    }
}

impl View for BugCapsuleReport {
    type V = BugCapsuleReportView;

    open spec fn view(&self) -> BugCapsuleReportView {
        self.deep_view()
    }
}

impl Dup for BugCapsuleReport {
    fn dup(&self) -> (r: Self) {
        BugCapsuleReport {
            name: self.name.dup(),
            title: self.title.dup(),
            lifecycle_invariant: self.lifecycle_invariant.dup(),
            expected_failure_ids: self.expected_failure_ids.dup(),
            expected_failures_detected: self.expected_failures_detected,
            status: self.status.dup(),
            success_path: self.success_path.dup(),
            seeded_bug_path: self.seeded_bug_path.dup(),
        }
    }
}


/// A capsule of the catalog, as mathematical values.
pub struct CapsuleSpecView {
    /// Stable name.
    pub name: Seq<char>,
    /// Short title.
    pub title: Seq<char>,
    /// The lifecycle rule the bug breaks.
    pub lifecycle_invariant: Seq<char>,
    /// Checks the seeded bug must fail.
    pub expected_failure_ids: Seq<Seq<char>>,
    /// Bug switches the seeded path turns on.
    pub enabled_bug_keys: Seq<Seq<char>>,
    /// The actions both paths run.
    pub actions: Seq<ActionView>,
}

struct CapsuleSpec {
    name: String,
    title: String,
    lifecycle_invariant: String,
    expected_failure_ids: Vec<String>,
    enabled_bug_keys: Vec<String>,
    actions: Vec<Action>,
}

impl CapsuleSpec {
    spec fn view_spec(&self) -> CapsuleSpecView {
        CapsuleSpecView {
            name: self.name@,
            title: self.title@,
            lifecycle_invariant: self.lifecycle_invariant@,
            expected_failure_ids: views(self.expected_failure_ids@),
            enabled_bug_keys: views(self.enabled_bug_keys@),
            actions: self.actions.deep_view(),
        }
    }
}

/// The actions of the delete-file capsule.
pub open spec fn delete_file_actions_spec() -> Seq<ActionView> {
    seq![ActionView::DeleteFile { path: "src/legacy_user.tl"@ }]
}

/// The capsule catalog.
pub open spec fn catalog() -> Seq<CapsuleSpecView> {
    seq![
        CapsuleSpecView {
            name: "delete-file-lifecycle"@,
            title: "Delete file clears outputs and closes owned resources"@,
            lifecycle_invariant: "Removed source files leave no diagnostics, watchers, jobs, or scope-owned resources."@,
            expected_failure_ids: seq![
                "no-diagnostics-for-removed-files"@,
                "no-watcher-for-removed-files"@,
                "closed-scope-owns-no-resources"@,
                "incremental-equals-full-recompute"@,
            ],
            enabled_bug_keys: seq!["skipClearDiagnosticsForDeletedFile"@, "skipWatcherClose"@],
            actions: delete_file_actions_spec(),
        },
        CapsuleSpecView {
            name: "rename-schema-output-rebaseline"@,
            title: "Import rename rebaselines document links"@,
            lifecycle_invariant: "Output ledgers must match the full recompute oracle after import graph changes."@,
            expected_failure_ids: seq!["incremental-equals-full-recompute"@],
            enabled_bug_keys: seq!["skipDocumentLinkRebaseline"@],
            actions: seq![ActionView::RenameSchema],
        },
        CapsuleSpecView {
            name: "stale-analysis-status"@,
            title: "Stale host status cannot mutate output"@,
            lifecycle_invariant: "A host result from an obsolete command revision is audit-only and emits no output frame."@,
            expected_failure_ids: seq![
                "stale-host-status-no-output"@,
                "incremental-equals-full-recompute"@,
            ],
            enabled_bug_keys: seq!["acceptStaleAnalysisResults"@],
            actions: seq![
                ActionView::StartSlowAnalysis,
                ActionView::FixApp,
                ActionView::InjectStaleAnalysisResult,
            ],
        },
    ]
}

/// Every naive bug switch.
pub open spec fn all_bug_keys() -> Seq<Seq<char>> {
    seq![
        "skipClearDiagnosticsForDeletedFile"@,
        "skipDocumentLinkRebaseline"@,
        "skipWatcherClose"@,
        "acceptStaleAnalysisResults"@,
        "skipScopeCloseOutputClear"@,
    ]
}

/// Setting each of the switches to one value.
pub open spec fn set_bugs(keys: Seq<Seq<char>>, value: bool) -> Seq<ActionView> {
    keys.map_values(|key: Seq<char>| ActionView::SetBug { key, value })
}

/// The actions a capsule path dispatches: the mode, in naive mode every
/// switch off and then the enabled ones on, and the capsule's actions.
pub open spec fn path_actions(mode: Seq<char>, enabled: Seq<Seq<char>>, actions: Seq<ActionView>) -> Seq<ActionView> {
    seq![ActionView::SetMode { mode }] + (if mode == "naive"@ {
        set_bugs(all_bug_keys(), false) + set_bugs(enabled, true)
    } else {
        Seq::empty()
    }) + actions
}

/// Whether dispatching the actions, one after another from the initial
/// state, ends in `last`.
pub open spec fn runs_to(actions: Seq<ActionView>, last: AppState) -> bool {
    exists|states: Seq<AppState>|
        {
            &&& states.len() == actions.len() + 1
            &&& initial_ok(&states[0])
            &&& forall|i: int|
                0 <= i < actions.len() ==> #[trigger] dispatch_ok(&states[i], actions[i], &states[i + 1])
            &&& #[trigger] states.last() == last
        }
}

/// The component that reports a check.
pub open spec fn failure_source_spec(id: Seq<char>) -> Seq<char> {
    if id == "no-watcher-for-removed-files"@ || id == "no-analysis-job-for-removed-files"@ || id
        == "closed-scope-owns-no-resources"@ {
        "ResourceLedger"@
    } else if id == "no-diagnostics-for-removed-files"@ || id == "no-document-links-for-removed-files"@
        || id == "no-semantic-tokens-for-removed-files"@ {
        "OutputLedger"@
    } else if id == "incremental-equals-full-recompute"@ {
        "FullRecomputeOracle"@
    } else if id == "stale-host-status-no-output"@ {
        "HostStatusAudit"@
    } else {
        "InvariantCheck"@
    }
}

/// The failure a failed check is reported as.
pub open spec fn failure_spec(c: InvariantCheckView) -> CapsuleFailureView {
    let source = failure_source_spec(c.id);
    let details = if c.details.len() == 0 {
        "No details supplied by invariant check."@
    } else {
        c.details
    };
    CapsuleFailureView {
        id: c.id,
        label: c.label,
        source,
        details,
        failure_text: source + " violated "@ + c.label + ": "@ + details,
    }
}

/// The failures of the checks that did not pass.
pub open spec fn failures_of(checks: Seq<InvariantCheckView>) -> Seq<CapsuleFailureView> {
    checks.filter(|c: InvariantCheckView| c.status != "pass"@).map_values(
        |c: InvariantCheckView| failure_spec(c),
    )
}

/// A capsule path's outcome: the checks of the last receipt.
pub open spec fn capsule_run_spec(mode: Seq<char>, s: AppStateView) -> CapsuleRunView {
    let last = s.traces.last();
    let failed = failures_of(last.invariant_checks);
    CapsuleRunView {
        mode,
        passed: failed.len() == 0,
        trace_label: last.label,
        transaction_count: s.traces.len() as usize,
        failed_checks: failed,
    }
}

/// Whether one of the failures is of the given check.
pub open spec fn has_id(fs: Seq<CapsuleFailureView>, id: Seq<char>) -> bool {
    exists|j: int| 0 <= j < fs.len() && #[trigger] fs[j].id == id
}

/// Whether a run failed every expected check.
pub open spec fn detects(expected: Seq<Seq<char>>, run: CapsuleRunView) -> bool {
    forall|i: int| 0 <= i < expected.len() ==> #[trigger] has_id(run.failed_checks, expected[i])
}

/// The report of a capsule from its two final states.
pub open spec fn report_spec(c: CapsuleSpecView, success: AppStateView, seeded: AppStateView) -> BugCapsuleReportView {
    let sp = capsule_run_spec("trellis"@, success);
    let bp = capsule_run_spec("naive"@, seeded);
    let detected = detects(c.expected_failure_ids, bp);
    BugCapsuleReportView {
        name: c.name,
        title: c.title,
        lifecycle_invariant: c.lifecycle_invariant,
        expected_failure_ids: c.expected_failure_ids,
        expected_failures_detected: detected,
        status: if sp.passed && !bp.passed && detected {
            "pass"@
        } else {
            "fail"@
        },
        success_path: sp,
        seeded_bug_path: bp,
    }
}

/// Whether `r` reports capsule `c`: the report of the states both of its
/// paths end in.
pub open spec fn reports(c: CapsuleSpecView, r: BugCapsuleReportView) -> bool {
    exists|success: AppState, seeded: AppState|
        {
            &&& runs_to(path_actions("trellis"@, Seq::empty(), c.actions), success)
            &&& runs_to(path_actions("naive"@, c.enabled_bug_keys, c.actions), seeded)
            &&& r == #[trigger] report_spec(c, success.deep_view(), seeded.deep_view())
        }
}

/// The catalog entry as a discoverable capsule.
pub open spec fn capsule_of(c: CapsuleSpecView) -> BugCapsuleView {
    BugCapsuleView {
        name: c.name,
        title: c.title,
        lifecycle_invariant: c.lifecycle_invariant,
        expected_failure_ids: c.expected_failure_ids,
    }
}

fn capsule_specs() -> (r: Vec<CapsuleSpec>)
    ensures
        r@.len() == 3,
        forall|i: int| 0 <= i < 3 ==> (#[trigger] r@[i]).view_spec() == catalog()[i],
{
    let a = CapsuleSpec {
        name: owned("delete-file-lifecycle"),
        title: owned("Delete file clears outputs and closes owned resources"),
        lifecycle_invariant: owned(
            "Removed source files leave no diagnostics, watchers, jobs, or scope-owned resources.",
        ),
        expected_failure_ids: vec![
            owned("no-diagnostics-for-removed-files"),
            owned("no-watcher-for-removed-files"),
            owned("closed-scope-owns-no-resources"),
            owned("incremental-equals-full-recompute"),
        ],
        enabled_bug_keys: vec![owned("skipClearDiagnosticsForDeletedFile"), owned("skipWatcherClose")],
        actions: vec![Action::DeleteFile { path: owned("src/legacy_user.tl") }],
    };
    let b = CapsuleSpec {
        name: owned("rename-schema-output-rebaseline"),
        title: owned("Import rename rebaselines document links"),
        lifecycle_invariant: owned(
            "Output ledgers must match the full recompute oracle after import graph changes.",
        ),
        expected_failure_ids: vec![owned("incremental-equals-full-recompute")],
        enabled_bug_keys: vec![owned("skipDocumentLinkRebaseline")],
        actions: vec![Action::RenameSchema],
    };
    let c = CapsuleSpec {
        name: owned("stale-analysis-status"),
        title: owned("Stale host status cannot mutate output"),
        lifecycle_invariant: owned(
            "A host result from an obsolete command revision is audit-only and emits no output frame.",
        ),
        expected_failure_ids: vec![
            owned("stale-host-status-no-output"),
            owned("incremental-equals-full-recompute"),
        ],
        enabled_bug_keys: vec![owned("acceptStaleAnalysisResults")],
        actions: vec![Action::StartSlowAnalysis, Action::FixApp, Action::InjectStaleAnalysisResult],
    };
    proof {
        assert(a.view_spec().expected_failure_ids =~= catalog()[0].expected_failure_ids);
        assert(a.view_spec().enabled_bug_keys =~= catalog()[0].enabled_bug_keys);
        assert(a.view_spec().actions =~= catalog()[0].actions);
        assert(b.view_spec().expected_failure_ids =~= catalog()[1].expected_failure_ids);
        assert(b.view_spec().enabled_bug_keys =~= catalog()[1].enabled_bug_keys);
        assert(b.view_spec().actions =~= catalog()[1].actions);
        assert(c.view_spec().expected_failure_ids =~= catalog()[2].expected_failure_ids);
        assert(c.view_spec().enabled_bug_keys =~= catalog()[2].enabled_bug_keys);
        assert(c.view_spec().actions =~= catalog()[2].actions);
    }
    vec![a, b, c]
}

/// The capsules that can be run, in catalog order.
pub fn available_bug_capsules() -> (r: Vec<BugCapsule>)
    ensures
        r.deep_view() == catalog().map_values(|c: CapsuleSpecView| capsule_of(c)),
{
    let specs = capsule_specs();
    let mut r: Vec<BugCapsule> = Vec::new();
    let mut i: usize = 0;
    while i < specs.len()
        invariant
            specs@.len() == 3,
            forall|j: int| 0 <= j < 3 ==> (#[trigger] specs@[j]).view_spec() == catalog()[j],
            i <= 3,
            r.deep_view() == catalog().take(i as int).map_values(|c: CapsuleSpecView| capsule_of(c)),
        decreases 3 - i,
    {
        let s = &specs[i];
        let b = BugCapsule {
            name: s.name.dup(),
            title: s.title.dup(),
            lifecycle_invariant: s.lifecycle_invariant.dup(),
            expected_failure_ids: s.expected_failure_ids.dup(),
        };
        let ghost old_r = r.deep_view();
        proof {
            assert(s.expected_failure_ids.deep_view() =~= views(s.expected_failure_ids@));
        }
        r.push(b);
        proof {
            assert(r.deep_view() =~= old_r.push(capsule_of(catalog()[i as int])));
            assert(catalog().take(i + 1) =~= catalog().take(i as int).push(catalog()[i as int]));
            assert(catalog().take(i + 1).map_values(|c: CapsuleSpecView| capsule_of(c)) =~= catalog().take(
                i as int,
            ).map_values(|c: CapsuleSpecView| capsule_of(c)).push(capsule_of(catalog()[i as int])));
        }
        i = i + 1;
    }
    assert(catalog().take(3) =~= catalog());
    r
}

fn push_set_bugs(r: &mut Vec<Action>, keys: &Vec<String>, value: bool)
    ensures
        final(r).deep_view() == old(r).deep_view() + set_bugs(views(keys@), value),
{
    let ghost start = r.deep_view();
    let mut i: usize = 0;
    while i < keys.len()
        invariant
            i <= keys@.len(),
            r.deep_view() == start + set_bugs(views(keys@).take(i as int), value),
        decreases keys.len() - i,
    {
        let ghost old_r = r.deep_view();
        r.push(Action::SetBug { key: keys[i].dup(), value });
        proof {
            assert(r.deep_view() =~= old_r.push(ActionView::SetBug { key: keys@[i as int]@, value }));
            assert(views(keys@).take(i + 1) =~= views(keys@).take(i as int).push(keys@[i as int]@));
            assert(set_bugs(views(keys@).take(i + 1), value) =~= set_bugs(views(keys@).take(i as int), value).push(
                ActionView::SetBug { key: keys@[i as int]@, value },
            ));
        }
        i = i + 1;
    }
    assert(views(keys@).take(keys@.len() as int) =~= views(keys@));
}

fn path_of(mode: &str, enabled: &Vec<String>, actions: &Vec<Action>) -> (r: Vec<Action>)
    ensures
        r.deep_view() == path_actions(mode@, views(enabled@), actions.deep_view()),
{
    let mut r: Vec<Action> = vec![Action::SetMode { mode: owned(mode) }];
    let ghost head = r.deep_view();
    assert(head =~= seq![ActionView::SetMode { mode: mode@ }]);
    proof {
        reveal_strlit("naive");
    }
    if str_eq(mode, "naive") {
        let all = vec![
            owned("skipClearDiagnosticsForDeletedFile"),
            owned("skipDocumentLinkRebaseline"),
            owned("skipWatcherClose"),
            owned("acceptStaleAnalysisResults"),
            owned("skipScopeCloseOutputClear"),
        ];
        assert(views(all@) =~= all_bug_keys());
        push_set_bugs(&mut r, &all, false);
        push_set_bugs(&mut r, enabled, true);
    }
    let ghost mid = r.deep_view();
    let mut i: usize = 0;
    while i < actions.len()
        invariant
            i <= actions@.len(),
            r.deep_view() == mid + actions.deep_view().take(i as int),
        decreases actions.len() - i,
    {
        let ghost old_r = r.deep_view();
        r.push(actions[i].dup());
        proof {
            assert(r.deep_view() =~= old_r.push(actions.deep_view()[i as int]));
            assert(actions.deep_view().take(i + 1) =~= actions.deep_view().take(i as int).push(actions.deep_view()[i as int]));
        }
        i = i + 1;
    }
    proof {
        assert(actions.deep_view().take(actions@.len() as int) =~= actions.deep_view());
        if mode@ == "naive"@ {
            assert(r.deep_view() =~= path_actions(mode@, views(enabled@), actions.deep_view()));
        } else {
            assert(r.deep_view() =~= path_actions(mode@, views(enabled@), actions.deep_view()));
        }
    }
    r
}

#[verifier::spinoff_prover]
#[verifier::rlimit(30)]
fn run_actions(actions: &Vec<Action>) -> (r: AppState)
    requires
        actions@.len() + 2 < u32::MAX,
    ensures
        runs_to(actions.deep_view(), r),
        r.traces@.len() >= 1,
{
    let ghost av = actions.deep_view();
    let mut state = initial_app_state();
    let ghost mut states: Seq<AppState> = seq![state];
    let n = actions.len();
    let mut i: usize = 0;
    while i < n
        invariant
            av == actions.deep_view(),
            n == av.len(),
            n + 2 < u32::MAX,
            i <= n,
            states.len() == i + 1,
            states.last() == state,
            initial_ok(&states[0]),
            app_wf(&state),
            state.inputs.scenario_revision <= i + 1,
            1 <= state.traces@.len() <= i + 1,
            forall|j: int| 0 <= j < i ==> #[trigger] dispatch_ok(&states[j], av[j], &states[j + 1]),
        decreases n - i,
    {
        let a = actions[i].dup();
        let ghost before = state;
        state = dispatch_action(state, a);
        proof {
            lemma_dispatch_growth(&before, av[i as int], &state);
            states = states.push(state);
        }
        i = i + 1;
    }
    state
}

/// The component that reports a check.
pub fn failure_source(id: &str) -> (r: &'static str)
    ensures
        r@ == failure_source_spec(id@),
{
    if str_eq(id, "no-watcher-for-removed-files") || str_eq(id, "no-analysis-job-for-removed-files")
        || str_eq(id, "closed-scope-owns-no-resources") {
        "ResourceLedger"
    } else if str_eq(id, "no-diagnostics-for-removed-files") || str_eq(
        id,
        "no-document-links-for-removed-files",
    ) || str_eq(id, "no-semantic-tokens-for-removed-files") {
        "OutputLedger"
    } else if str_eq(id, "incremental-equals-full-recompute") {
        "FullRecomputeOracle"
    } else if str_eq(id, "stale-host-status-no-output") {
        "HostStatusAudit"
    } else {
        "InvariantCheck"
    }
}

/// The failure a failed check is reported as.
pub fn capsule_failure(check: &InvariantCheck) -> (r: CapsuleFailure)
    ensures
        r.deep_view() == failure_spec(check.deep_view()),
{
    let source = failure_source(check.id.as_str());
    let details = if check.details.unicode_len() == 0 {
        owned("No details supplied by invariant check.")
    } else {
        check.details.dup()
    };
    let mut text = owned(source);
    append(&mut text, " violated ");
    append(&mut text, check.label.as_str());
    append(&mut text, ": ");
    append(&mut text, details.as_str());
    CapsuleFailure {
        id: check.id.dup(),
        label: check.label.dup(),
        source: owned(source),
        details,
        failure_text: text,
    }
}

/// A capsule path's outcome from its final state.
pub fn capsule_run(mode: &str, state: &AppState) -> (r: CapsuleRun)
    requires
        state.traces@.len() > 0,
    ensures
        r.deep_view() == capsule_run_spec(mode@, state.deep_view()),
{
    let ghost sv = state.deep_view();
    let trace = &state.traces[state.traces.len() - 1];
    assert(trace.deep_view() == sv.traces.last());
    let ghost checks = trace.invariant_checks.deep_view();
    let ghost pred = |c: InvariantCheckView| c.status != "pass"@;
    let mut failed: Vec<CapsuleFailure> = Vec::new();
    let mut i: usize = 0;
    while i < trace.invariant_checks.len()
        invariant
            checks == trace.invariant_checks.deep_view(),
            pred == (|c: InvariantCheckView| c.status != "pass"@),
            i <= checks.len(),
            failed.deep_view() == checks.take(i as int).filter(pred).map_values(
                |c: InvariantCheckView| failure_spec(c),
            ),
        decreases checks.len() - i,
    {
        let c = &trace.invariant_checks[i];
        let ghost t = checks.take(i as int);
        proof {
            assert(checks.take(i + 1) =~= t.push(checks[i as int]));
            t.lemma_filter_push(checks[i as int], pred);
        }
        if !str_eq(c.status.as_str(), "pass") {
            let ghost old_f = failed.deep_view();
            failed.push(capsule_failure(c));
            proof {
                assert(failed.deep_view() =~= old_f.push(failure_spec(checks[i as int])));
                assert(t.filter(pred).push(checks[i as int]).map_values(|c: InvariantCheckView| failure_spec(c))
                    =~= t.filter(pred).map_values(|c: InvariantCheckView| failure_spec(c)).push(
                    failure_spec(checks[i as int]),
                ));
            }
        }
        i = i + 1;
    }
    assert(checks.take(checks.len() as int) =~= checks);
    CapsuleRun {
        mode: owned(mode),
        passed: failed.len() == 0,
        trace_label: trace.label.dup(),
        transaction_count: state.traces.len(),
        failed_checks: failed,
    }
}

fn has_failure(run: &CapsuleRun, id: &str) -> (b: bool)
    ensures
        b == has_id(run.deep_view().failed_checks, id@),
{
    let ghost rv = run.deep_view();
    let mut j: usize = 0;
    while j < run.failed_checks.len()
        invariant
            rv == run.deep_view(),
            j <= rv.failed_checks.len(),
            forall|q: int| 0 <= q < j ==> #[trigger] rv.failed_checks[q].id != id@,
        decreases rv.failed_checks.len() - j,
    {
        assert(rv.failed_checks[j as int] == run.failed_checks@[j as int].deep_view());
        if str_eq(run.failed_checks[j].id.as_str(), id) {
            assert(rv.failed_checks[j as int].id == id@);
            return true;
        }
        j = j + 1;
    }
    false
}

fn detected(expected: &Vec<String>, run: &CapsuleRun) -> (b: bool)
    ensures
        b == detects(views(expected@), run.deep_view()),
{
    let ghost rv = run.deep_view();
    let ghost ev = views(expected@);
    let mut i: usize = 0;
    while i < expected.len()
        invariant
            rv == run.deep_view(),
            ev == views(expected@),
            i <= ev.len(),
            forall|x: int| 0 <= x < i ==> #[trigger] has_id(rv.failed_checks, ev[x]),
        decreases ev.len() - i,
    {
        if !has_failure(run, expected[i].as_str()) {
            proof {
                assert(ev[i as int] == expected@[i as int]@);
                if detects(ev, rv) {
                    assert(has_id(rv.failed_checks, ev[i as int]));
                }
            }
            return false;
        }
        assert(ev[i as int] == expected@[i as int]@);
        i = i + 1;
    }
    true
}

fn run_path_state(mode: &str, enabled: &Vec<String>, actions: &Vec<Action>) -> (r: AppState)
    requires
        actions@.len() < 100,
        enabled@.len() < 100,
    ensures
        runs_to(path_actions(mode@, views(enabled@), actions.deep_view()), r),
        r.traces@.len() >= 1,
{
    let path = path_of(mode, enabled, actions);
    assert(path@.len() == path.deep_view().len());
    assert(path@.len() < 300);
    run_actions(&path)
}

fn run_spec(spec: &CapsuleSpec) -> (r: BugCapsuleReport)
    requires
        spec.actions@.len() < 100,
        spec.enabled_bug_keys@.len() < 100,
    ensures
        reports(spec.view_spec(), r.deep_view()),
{
    let no_keys: Vec<String> = Vec::new();
    assert(views(no_keys@) =~= Seq::<Seq<char>>::empty());
    let success = run_path_state("trellis", &no_keys, &spec.actions);
    let seeded = run_path_state("naive", &spec.enabled_bug_keys, &spec.actions);
    let success_path = capsule_run("trellis", &success);
    let seeded_bug_path = capsule_run("naive", &seeded);
    let found = detected(&spec.expected_failure_ids, &seeded_bug_path);
    let status = if success_path.passed && !seeded_bug_path.passed && found {
        owned("pass")
    } else {
        owned("fail")
    };
    let r = BugCapsuleReport {
        name: spec.name.dup(),
        title: spec.title.dup(),
        lifecycle_invariant: spec.lifecycle_invariant.dup(),
        expected_failure_ids: spec.expected_failure_ids.dup(),
        expected_failures_detected: found,
        status,
        success_path,
        seeded_bug_path,
    };
    proof {
        assert(spec.expected_failure_ids.deep_view() =~= views(spec.expected_failure_ids@));
        assert(r.deep_view() == report_spec(spec.view_spec(), success.deep_view(), seeded.deep_view()));
    }
    r
}

/// Runs every capsule, in catalog order.
pub fn run_all_bug_capsules() -> (r: Vec<BugCapsuleReport>)
    ensures
        r@.len() == 3,
        forall|i: int| 0 <= i < 3 ==> reports(catalog()[i], #[trigger] r.deep_view()[i]),
{
    let specs = capsule_specs();
    let mut r: Vec<BugCapsuleReport> = Vec::new();
    let mut i: usize = 0;
    while i < specs.len()
        invariant
            specs@.len() == 3,
            forall|j: int| 0 <= j < 3 ==> (#[trigger] specs@[j]).view_spec() == catalog()[j],
            i <= 3,
            r@.len() == i,
            forall|j: int| 0 <= j < i ==> reports(catalog()[j], #[trigger] r.deep_view()[j]),
        decreases 3 - i,
    {
        assert(specs@[i as int].view_spec() == catalog()[i as int]);
        assert(specs@[i as int].actions@.len() < 100) by {
            assert(specs@[i as int].actions.deep_view().len() == catalog()[i as int].actions.len());
        }
        assert(specs@[i as int].enabled_bug_keys@.len() < 100) by {
            assert(views(specs@[i as int].enabled_bug_keys@).len() == catalog()[i as int].enabled_bug_keys.len());
        }
        let rep = run_spec(&specs[i]);
        let ghost old_r = r.deep_view();
        r.push(rep);
        assert(r.deep_view() =~= old_r.push(rep.deep_view()));
        i = i + 1;
    }
    r
}

/// Runs the capsule of the given name, if the catalog has one.
pub fn run_bug_capsule(name: &str) -> (r: Option<BugCapsuleReport>)
    ensures
        r is None <==> forall|i: int| 0 <= i < 3 ==> #[trigger] catalog()[i].name != name@,
        r matches Some(rep) ==> exists|i: int|
            0 <= i < 3 && #[trigger] catalog()[i].name == name@ && reports(catalog()[i], rep.deep_view()),
{
    let specs = capsule_specs();
    let mut i: usize = 0;
    while i < specs.len()
        invariant
            specs@.len() == 3,
            forall|j: int| 0 <= j < 3 ==> (#[trigger] specs@[j]).view_spec() == catalog()[j],
            i <= 3,
            forall|j: int| 0 <= j < i ==> #[trigger] catalog()[j].name != name@,
        decreases 3 - i,
    {
        assert(specs@[i as int].view_spec() == catalog()[i as int]);
        if str_eq(specs[i].name.as_str(), name) {
            assert(specs@[i as int].actions@.len() < 100) by {
                assert(specs@[i as int].actions.deep_view().len() == catalog()[i as int].actions.len());
            }
            assert(specs@[i as int].enabled_bug_keys@.len() < 100) by {
                assert(views(specs@[i as int].enabled_bug_keys@).len() == catalog()[i as int].enabled_bug_keys.len());
            }
            let rep = run_spec(&specs[i]);
            return Some(rep);
        }
        i = i + 1;
    }
    None
}

} // verus!
