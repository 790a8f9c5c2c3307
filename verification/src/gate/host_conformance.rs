//! Evidence that a host applied exactly what was committed: the plan a
//! step previewed, the plan it committed, the effects the host applied
//! through declared executors, and the reports the host sent back.
use vstd::prelude::*;
use crate::dup::Dup;
use crate::gate::plan::{
    copy_commands, same_command, same_commands, HostResourceOutcomeView, HostStatusReport, HostStatusReportView,
    ResourceCommand, ResourceCommandKind, ResourceCommandView, TransactionResult,
};
use crate::strmap::{least, lemma_least, StrSet};
use crate::text::{owned, str_eq};

verus! {

/// The resource plan of one step, previewed or committed.
#[derive(Debug)]
pub struct HostPlanRecord {
    /// The step's name.
    pub step: String,
    /// The commands, in plan order.
    pub commands: Vec<ResourceCommand>,
}

/// What a `HostPlanRecord` holds, as mathematical values.
pub struct HostPlanRecordView {
    /// The step's name.
    pub step: Seq<char>,
    /// The commands, in plan order.
    pub commands: Seq<ResourceCommandView>,
}

impl DeepView for HostPlanRecord {
    type V = HostPlanRecordView;

    open spec fn deep_view(&self) -> HostPlanRecordView {
        HostPlanRecordView { step: self.step@, commands: self.commands.deep_view() }
    }
}

/// One effect a host applied.
#[derive(Debug)]
pub struct HostEffectRecord {
    /// The step that applied it.
    pub step: String,
    /// The executor that applied it.
    pub executor: String,
    /// The transaction whose plan authorized it.
    pub transaction_id: u64,
    /// The revision whose plan authorized it.
    pub revision: u64,
    /// The command applied.
    pub command: ResourceCommand,
}

/// What a `HostEffectRecord` holds, as mathematical values.
pub struct HostEffectRecordView {
    /// The step that applied it.
    pub step: Seq<char>,
    /// The executor that applied it.
    pub executor: Seq<char>,
    /// The transaction whose plan authorized it.
    pub transaction_id: u64,
    /// The revision whose plan authorized it.
    pub revision: u64,
    /// The command applied.
    pub command: ResourceCommandView,
}

impl DeepView for HostEffectRecord {
    type V = HostEffectRecordView;

    open spec fn deep_view(&self) -> HostEffectRecordView {
        HostEffectRecordView {
            step: self.step@,
            executor: self.executor@,
            transaction_id: self.transaction_id,
            revision: self.revision,
            command: self.command.deep_view(),
        }
    }
}

impl Dup for HostEffectRecord {
    fn dup(&self) -> (r: Self) {
        HostEffectRecord {
            step: self.step.dup(),
            executor: self.executor.dup(),
            transaction_id: self.transaction_id,
            revision: self.revision,
            command: self.command.dup(),
        }
    }
}

/// A break in the evidence chain.
#[derive(Debug)]
pub enum HostConformanceError {
    /// A committed step has no preview.
    MissingPreview {
        /// The step.
        step: String,
    },
    /// A committed plan differs from the step's preview.
    CommitDiffersFromPreview {
        /// The step.
        step: String,
        /// The previewed commands.
        previewed: Vec<ResourceCommand>,
        /// The committed commands.
        committed: Vec<ResourceCommand>,
    },
    /// An effect that no committed command authorized.
    EffectWithoutCommit {
        /// The effect.
        effect: HostEffectRecord,
    },
    /// An effect applied by an undeclared executor.
    EffectFromUndeclaredExecutor {
        /// The step.
        step: String,
        /// The executor.
        executor: String,
    },
    /// An effect site that is not a declared executor.
    UndeclaredEffectSite {
        /// The site.
        site: String,
    },
    /// A report that matches no applied effect.
    StatusWithoutEffect {
        /// The report.
        status: HostStatusReport,
    },
}

/// What a `HostConformanceError` holds, as mathematical values.
pub enum HostConformanceErrorView {
    /// A committed step has no preview.
    MissingPreview { step: Seq<char> },
    /// A committed plan differs from the step's preview.
    CommitDiffersFromPreview {
        step: Seq<char>,
        previewed: Seq<ResourceCommandView>,
        committed: Seq<ResourceCommandView>,
    },
    /// An effect that no committed command authorized.
    EffectWithoutCommit { effect: HostEffectRecordView },
    /// An effect applied by an undeclared executor.
    EffectFromUndeclaredExecutor { step: Seq<char>, executor: Seq<char> },
    /// An effect site that is not a declared executor.
    UndeclaredEffectSite { site: Seq<char> },
    /// A report that matches no applied effect.
    StatusWithoutEffect { status: HostStatusReportView },
}

impl DeepView for HostConformanceError {
    type V = HostConformanceErrorView;

    open spec fn deep_view(&self) -> HostConformanceErrorView {
        match self {
            HostConformanceError::MissingPreview { step } => HostConformanceErrorView::MissingPreview { step: step@ },
            HostConformanceError::CommitDiffersFromPreview { step, previewed, committed } =>
                HostConformanceErrorView::CommitDiffersFromPreview {
                step: step@,
                previewed: previewed.deep_view(),
                committed: committed.deep_view(),
            },
            HostConformanceError::EffectWithoutCommit { effect } => HostConformanceErrorView::EffectWithoutCommit {
                effect: effect.deep_view(),
            },
            HostConformanceError::EffectFromUndeclaredExecutor { step, executor } =>
                HostConformanceErrorView::EffectFromUndeclaredExecutor { step: step@, executor: executor@ },
            HostConformanceError::UndeclaredEffectSite { site } => HostConformanceErrorView::UndeclaredEffectSite {
                site: site@,
            },
            HostConformanceError::StatusWithoutEffect { status } => HostConformanceErrorView::StatusWithoutEffect {
                status: status.deep_view(),
            },
        }
    }
}

/// Evidence of a host seam: previews, commits, effects, reports, declared
/// executors and observed effect sites.
#[derive(Debug)]
pub struct HostConformanceLedger {
    previews: Vec<HostPlanRecord>,
    commits: Vec<HostPlanRecord>,
    effects: Vec<HostEffectRecord>,
    statuses: Vec<HostStatusReport>,
    declared_executors: StrSet,
    observed_effect_sites: StrSet,
}

/// What a `HostConformanceLedger` holds, as mathematical values.
pub struct HostConformanceLedgerView {
    /// Previewed plans, in order.
    pub previews: Seq<HostPlanRecordView>,
    /// Committed plans, in order.
    pub commits: Seq<HostPlanRecordView>,
    /// Applied effects, in order.
    pub effects: Seq<HostEffectRecordView>,
    /// Host reports, in order.
    pub statuses: Seq<HostStatusReportView>,
    /// Declared executors.
    pub declared: Set<Seq<char>>,
    /// Observed effect sites.
    pub sites: Set<Seq<char>>,
}

impl View for HostConformanceLedger {
    type V = HostConformanceLedgerView;

    closed spec fn view(&self) -> HostConformanceLedgerView {
        HostConformanceLedgerView {
            previews: self.previews.deep_view(),
            commits: self.commits.deep_view(),
            effects: self.effects.deep_view(),
            statuses: self.statuses.deep_view(),
            declared: self.declared_executors@,
            sites: self.observed_effect_sites@,
        }
    }
}

// ---------------------------------------------------------------------
// The model
// ---------------------------------------------------------------------
/// The position of the first record of a step (the length when none).
pub open spec fn first_step(rs: Seq<HostPlanRecordView>, step: Seq<char>) -> int
    decreases rs.len(),
{
    if rs.len() == 0 {
        0
    } else if rs[0].step == step {
        0
    } else {
        1 + first_step(rs.drop_first(), step)
    }
}

/// What is wrong with a commit, if anything: no preview of its step, or
/// a first preview with other commands.
pub open spec fn commit_problem(previews: Seq<HostPlanRecordView>, c: HostPlanRecordView) -> Option<HostConformanceErrorView> {
    let p = first_step(previews, c.step);
    if p >= previews.len() {
        Some(HostConformanceErrorView::MissingPreview { step: c.step })
    } else if previews[p].commands != c.commands {
        Some(
            HostConformanceErrorView::CommitDiffersFromPreview {
                step: c.step,
                previewed: previews[p].commands,
                committed: c.commands,
            },
        )
    } else {
        None
    }
}

/// How often a command occurs in a plan.
pub open spec fn count_command(cs: Seq<ResourceCommandView>, c: ResourceCommandView) -> int
    decreases cs.len(),
{
    if cs.len() == 0 {
        0
    } else {
        count_command(cs.drop_last(), c) + if cs.last() == c { 1int } else { 0int }
    }
}

/// How often a step applied a command.
pub open spec fn count_effect(es: Seq<HostEffectRecordView>, step: Seq<char>, c: ResourceCommandView) -> int
    decreases es.len(),
{
    if es.len() == 0 {
        0
    } else {
        count_effect(es.drop_last(), step, c) + if es.last().step == step && es.last().command == c {
            1int
        } else {
            0int
        }
    }
}

/// The effect at `i` is authorized: its step committed a plan, and up to
/// and including it the step applied its command no more often than the
/// step's first committed plan holds it.
pub open spec fn effect_authorized(commits: Seq<HostPlanRecordView>, es: Seq<HostEffectRecordView>, i: int) -> bool {
    let e = es[i];
    let p = first_step(commits, e.step);
    p < commits.len() && count_effect(es.take(i + 1), e.step, e.command) <= count_command(commits[p].commands, e.command)
}

/// The host's outcome fits the command: an open for anything but a close,
/// closed for a close, and anything else for any command.
pub open spec fn outcome_fits(kind: ResourceCommandKind, o: HostResourceOutcomeView) -> bool {
    match o {
        HostResourceOutcomeView::Open => kind != ResourceCommandKind::Close,
        HostResourceOutcomeView::Closed => kind == ResourceCommandKind::Close,
        _ => true,
    }
}

/// The effect accounts for the report: same command revision, key and
/// scope, and an outcome that fits the command.
pub open spec fn effect_explains(e: HostEffectRecordView, s: HostStatusReportView) -> bool {
    &&& e.revision == s.command_revision
    &&& e.command.key == s.key
    &&& e.command.scope == s.scope
    &&& outcome_fits(e.command.kind, s.outcome)
}

/// Some effect accounts for the report.
pub open spec fn report_explained(es: Seq<HostEffectRecordView>, s: HostStatusReportView) -> bool {
    exists|j: int| 0 <= j < es.len() && effect_explains(es[j], s)
}

/// The effect record a committed command becomes when a step applies it.
pub open spec fn effect_of(step: Seq<char>, executor: Seq<char>, tx: u64, rev: u64, c: ResourceCommandView) -> HostEffectRecordView {
    HostEffectRecordView { step, executor, transaction_id: tx, revision: rev, command: c }
}

/// The effect records of a plan applied by a step through an executor.
pub open spec fn effects_of(step: Seq<char>, executor: Seq<char>, tx: u64, rev: u64, cs: Seq<ResourceCommandView>) -> Seq<HostEffectRecordView> {
    Seq::new(cs.len(), |i: int| effect_of(step, executor, tx, rev, cs[i]))
}

proof fn lemma_count_command_prefix(cs: Seq<ResourceCommandView>, n: int, c: ResourceCommandView)
    requires
        0 <= n <= cs.len(),
    ensures
        count_command(cs.take(n), c) <= count_command(cs, c),
    decreases cs.len(),
{
    if n < cs.len() {
        lemma_count_command_prefix(cs.drop_last(), n, c);
        assert(cs.drop_last().take(n) =~= cs.take(n));
    } else {
        assert(cs.take(n) =~= cs);
    }
}

proof fn lemma_count_effects_of(step: Seq<char>, executor: Seq<char>, tx: u64, rev: u64, cs: Seq<ResourceCommandView>, c: ResourceCommandView)
    ensures
        count_effect(effects_of(step, executor, tx, rev, cs), step, c) == count_command(cs, c),
    decreases cs.len(),
{
    if cs.len() > 0 {
        lemma_count_effects_of(step, executor, tx, rev, cs.drop_last(), c);
        assert(effects_of(step, executor, tx, rev, cs).drop_last() =~= effects_of(step, executor, tx, rev, cs.drop_last()));
    }
}

/// A step that applies exactly the commands of its first committed plan,
/// in order, applies nothing the commit did not authorize.
pub proof fn law_applying_the_commit_conforms(
    commits: Seq<HostPlanRecordView>,
    step: Seq<char>,
    executor: Seq<char>,
    tx: u64,
    rev: u64,
)
    requires
        first_step(commits, step) < commits.len(),
    ensures
        ({
            let cs = commits[first_step(commits, step)].commands;
            let es = effects_of(step, executor, tx, rev, cs);
            forall|i: int| 0 <= i < es.len() ==> #[trigger] effect_authorized(commits, es, i)
        }),
{
    let cs = commits[first_step(commits, step)].commands;
    let es = effects_of(step, executor, tx, rev, cs);
    assert forall|i: int| 0 <= i < es.len() implies #[trigger] effect_authorized(commits, es, i) by {
        assert(es.take(i + 1) =~= effects_of(step, executor, tx, rev, cs.take(i + 1)));
        lemma_count_effects_of(step, executor, tx, rev, cs.take(i + 1), cs[i]);
        lemma_count_command_prefix(cs, i + 1, cs[i]);
    }
}

/// Every commit has a matching preview.
pub open spec fn commits_ok(l: HostConformanceLedgerView) -> bool {
    forall|i: int| 0 <= i < l.commits.len() ==> #[trigger] commit_problem(l.previews, l.commits[i]) is None
}

/// `e` is the problem of the first commit that has one.
pub open spec fn commit_error(l: HostConformanceLedgerView, e: HostConformanceErrorView) -> bool {
    exists|i: int|
        0 <= i < l.commits.len() && (forall|j: int| 0 <= j < i ==> #[trigger] commit_problem(l.previews, l.commits[j]) is None)
            && commit_problem(l.previews, l.commits[i]) == Some(e)
}

/// Every effect is authorized.
pub open spec fn effects_ok(l: HostConformanceLedgerView) -> bool {
    forall|i: int| 0 <= i < l.effects.len() ==> #[trigger] effect_authorized(l.commits, l.effects, i)
}

/// `e` names the first unauthorized effect.
pub open spec fn effect_error(l: HostConformanceLedgerView, e: HostConformanceErrorView) -> bool {
    exists|i: int|
        0 <= i < l.effects.len() && (forall|j: int| 0 <= j < i ==> #[trigger] effect_authorized(l.commits, l.effects, j))
            && !effect_authorized(l.commits, l.effects, i) && e == HostConformanceErrorView::EffectWithoutCommit {
            effect: l.effects[i],
        }
}

/// Every effect site and every effect's executor is declared.
pub open spec fn executors_ok(l: HostConformanceLedgerView) -> bool {
    &&& l.sites.subset_of(l.declared)
    &&& forall|i: int| 0 <= i < l.effects.len() ==> l.declared.contains(#[trigger] l.effects[i].executor)
}

/// `e` names the least undeclared site, or, when every site is declared,
/// the first effect of an undeclared executor.
pub open spec fn executor_error(l: HostConformanceLedgerView, e: HostConformanceErrorView) -> bool {
    if !l.sites.subset_of(l.declared) {
        e == HostConformanceErrorView::UndeclaredEffectSite { site: least(l.sites.difference(l.declared)) }
    } else {
        exists|i: int|
            0 <= i < l.effects.len() && (forall|j: int| 0 <= j < i ==> l.declared.contains(#[trigger] l.effects[j].executor))
                && !l.declared.contains(l.effects[i].executor) && e
                == HostConformanceErrorView::EffectFromUndeclaredExecutor {
                step: l.effects[i].step,
                executor: l.effects[i].executor,
            }
    }
}

/// Every report is accounted for by an effect.
pub open spec fn statuses_ok(l: HostConformanceLedgerView) -> bool {
    forall|i: int| 0 <= i < l.statuses.len() ==> #[trigger] report_explained(l.effects, l.statuses[i])
}

/// `e` names the first report no effect accounts for.
pub open spec fn status_error(l: HostConformanceLedgerView, e: HostConformanceErrorView) -> bool {
    exists|i: int|
        0 <= i < l.statuses.len() && (forall|j: int| 0 <= j < i ==> #[trigger] report_explained(l.effects, l.statuses[j]))
            && !report_explained(l.effects, l.statuses[i]) && e == HostConformanceErrorView::StatusWithoutEffect {
            status: l.statuses[i],
        }
}

proof fn lemma_first_step(rs: Seq<HostPlanRecordView>, step: Seq<char>, p: int)
    requires
        0 <= p <= rs.len(),
        forall|j: int| 0 <= j < p ==> #[trigger] rs[j].step != step,
        p < rs.len() ==> rs[p].step == step,
    ensures
        first_step(rs, step) == p,
    decreases rs.len(),
{
    if rs.len() > 0 && p > 0 {
        assert(rs[0].step != step);
        assert forall|j: int| 0 <= j < p - 1 implies #[trigger] rs.drop_first()[j].step != step by {
            assert(rs.drop_first()[j] == rs[j + 1]);
        }
        lemma_first_step(rs.drop_first(), step, p - 1);
    }
}

fn find_step(rs: &Vec<HostPlanRecord>, step: &str) -> (r: usize)
    ensures
        r == first_step(rs.deep_view(), step@),
        r <= rs@.len(),
{
    let ghost v = rs.deep_view();
    let mut i: usize = 0;
    while i < rs.len()
        invariant
            i <= rs@.len(),
            v == rs.deep_view(),
            forall|j: int| 0 <= j < i ==> #[trigger] v[j].step != step@,
        decreases rs@.len() - i,
    {
        if str_eq(rs[i].step.as_str(), step) {
            proof {
                lemma_first_step(v, step@, i as int);
            }
            return i;
        }
        i = i + 1;
    }
    proof {
        lemma_first_step(v, step@, i as int);
    }
    i
}

fn count_commands(cs: &[ResourceCommand], c: &ResourceCommand) -> (r: usize)
    ensures
        r == count_command(cs.deep_view(), c.deep_view()),
{
    let ghost v = cs.deep_view();
    let mut n: usize = 0;
    let mut i: usize = 0;
    while i < cs.len()
        invariant
            i <= cs@.len(),
            v == cs.deep_view(),
            n == count_command(v.take(i as int), c.deep_view()),
            n <= i,
        decreases cs@.len() - i,
    {
        assert(v.take(i + 1).drop_last() =~= v.take(i as int));
        if same_command(&cs[i], c) {
            n = n + 1;
        }
        i = i + 1;
    }
    assert(v.take(i as int) =~= v);
    n
}

fn count_effects_upto(es: &Vec<HostEffectRecord>, upto: usize, step: &str, c: &ResourceCommand) -> (r: usize)
    requires
        upto <= es@.len(),
    ensures
        r == count_effect(es.deep_view().take(upto as int), step@, c.deep_view()),
{
    let ghost v = es.deep_view();
    let mut n: usize = 0;
    let mut i: usize = 0;
    while i < upto
        invariant
            i <= upto <= es@.len(),
            v == es.deep_view(),
            n == count_effect(v.take(i as int), step@, c.deep_view()),
            n <= i,
        decreases upto - i,
    {
        assert(v.take(i + 1).drop_last() =~= v.take(i as int));
        if str_eq(es[i].step.as_str(), step) && same_command(&es[i].command, c) {
            n = n + 1;
        }
        i = i + 1;
    }
    n
}

fn copy_plan(step: &String, commands: &[ResourceCommand]) -> (r: HostPlanRecord)
    ensures
        r.deep_view() == (HostPlanRecordView { step: step@, commands: commands.deep_view() }),
{
    HostPlanRecord { step: step.dup(), commands: copy_commands(commands) }
}

impl HostConformanceLedger {
    /// An empty ledger.
    pub fn new() -> (r: Self)
        ensures
            r@.previews == Seq::<HostPlanRecordView>::empty(),
            r@.commits == Seq::<HostPlanRecordView>::empty(),
            r@.effects == Seq::<HostEffectRecordView>::empty(),
            r@.statuses == Seq::<HostStatusReportView>::empty(),
            r@.declared == Set::<Seq<char>>::empty(),
            r@.sites == Set::<Seq<char>>::empty(),
    {
        let r = HostConformanceLedger {
            previews: Vec::new(),
            commits: Vec::new(),
            effects: Vec::new(),
            statuses: Vec::new(),
            declared_executors: StrSet::new(),
            observed_effect_sites: StrSet::new(),
        };
        assert(r@.previews =~= Seq::<HostPlanRecordView>::empty());
        assert(r@.commits =~= Seq::<HostPlanRecordView>::empty());
        assert(r@.effects =~= Seq::<HostEffectRecordView>::empty());
        assert(r@.statuses =~= Seq::<HostStatusReportView>::empty());
        r
    }

    /// Declares an executor allowed to apply effects.
    pub fn declare_executor(&mut self, executor: String)
        ensures
            final(self)@ == (HostConformanceLedgerView { declared: old(self)@.declared.insert(executor@), ..old(self)@ }),
    {
        self.declared_executors.insert(executor);
    }

    /// Records a site where effects are applied.
    pub fn record_effect_site(&mut self, site: String)
        ensures
            final(self)@ == (HostConformanceLedgerView { sites: old(self)@.sites.insert(site@), ..old(self)@ }),
    {
        self.observed_effect_sites.insert(site);
    }

    /// Records an applied effect; its executor counts as an effect site.
    pub fn record_effect(&mut self, step: String, executor: String, transaction_id: u64, revision: u64, command: ResourceCommand)
        ensures
            final(self)@ == (HostConformanceLedgerView {
                sites: old(self)@.sites.insert(executor@),
                effects: old(self)@.effects.push(effect_of(step@, executor@, transaction_id, revision, command.deep_view())),
                ..old(self)@
            }),
    {
        self.observed_effect_sites.insert(executor.dup());
        let ghost prev = self.effects.deep_view();
        self.effects.push(HostEffectRecord { step, executor, transaction_id, revision, command });
        assert(self.effects.deep_view() =~= prev.push(self.effects@.last().deep_view()));
    }

    /// Records a host report.
    pub fn record_status(&mut self, status: HostStatusReport)
        ensures
            final(self)@ == (HostConformanceLedgerView { statuses: old(self)@.statuses.push(status.deep_view()), ..old(self)@ }),
    {
        let ghost prev = self.statuses.deep_view();
        self.statuses.push(status);
        assert(self.statuses.deep_view() =~= prev.push(self.statuses@.last().deep_view()));
    }

    /// Records the plan a step previewed.
    pub fn record_preview<O>(&mut self, step: String, result: &TransactionResult<O>)
        ensures
            final(self)@ == (HostConformanceLedgerView {
                previews: old(self)@.previews.push(
                    HostPlanRecordView { step: step@, commands: result.resource_plan.deep_view() },
                ),
                ..old(self)@
            }),
    {
        let rec = copy_plan(&step, result.resource_plan.as_slice());
        let ghost prev = self.previews.deep_view();
        self.previews.push(rec);
        assert(self.previews.deep_view() =~= prev.push(self.previews@.last().deep_view()));
    }

    /// Records the plan a step committed.
    pub fn record_commit<O>(&mut self, step: String, result: &TransactionResult<O>)
        ensures
            final(self)@ == (HostConformanceLedgerView {
                commits: old(self)@.commits.push(
                    HostPlanRecordView { step: step@, commands: result.resource_plan.deep_view() },
                ),
                ..old(self)@
            }),
    {
        let rec = copy_plan(&step, result.resource_plan.as_slice());
        let ghost prev = self.commits.deep_view();
        self.commits.push(rec);
        assert(self.commits.deep_view() =~= prev.push(self.commits@.last().deep_view()));
    }

    /// Records every command of a committed plan as an effect the step
    /// applied through the executor.
    pub fn record_effects_from_commit<O>(&mut self, step: String, executor: String, result: &TransactionResult<O>)
        ensures
            final(self)@ == (HostConformanceLedgerView {
                sites: if result.resource_plan@.len() > 0 {
                    old(self)@.sites.insert(executor@)
                } else {
                    old(self)@.sites
                },
                effects: old(self)@.effects + effects_of(
                    step@,
                    executor@,
                    result.transaction_id,
                    result.revision,
                    result.resource_plan.deep_view(),
                ),
                ..old(self)@
            }),
    {
        let ghost cs = result.resource_plan.deep_view();
        let ghost l0 = self@;
        let mut i: usize = 0;
        assert(l0.effects + effects_of(step@, executor@, result.transaction_id, result.revision, cs.take(0)) =~= l0.effects);
        while i < result.resource_plan.len()
            invariant
                i <= cs.len(),
                cs == result.resource_plan.deep_view(),
                self@ == (HostConformanceLedgerView {
                    sites: if i > 0 { l0.sites.insert(executor@) } else { l0.sites },
                    effects: l0.effects + effects_of(step@, executor@, result.transaction_id, result.revision, cs.take(i as int)),
                    ..l0
                }),
            decreases cs.len() - i,
        {
            self.record_effect(step.dup(), executor.dup(), result.transaction_id, result.revision, result.resource_plan[i].dup());
            proof {
                assert(effects_of(step@, executor@, result.transaction_id, result.revision, cs.take(i + 1)) =~= effects_of(
                    step@,
                    executor@,
                    result.transaction_id,
                    result.revision,
                    cs.take(i as int),
                ).push(effect_of(step@, executor@, result.transaction_id, result.revision, cs[i as int])));
                assert(self@.effects =~= l0.effects + effects_of(step@, executor@, result.transaction_id, result.revision, cs.take(i + 1)));
                assert(self@.sites =~= l0.sites.insert(executor@));
            }
            i = i + 1;
        }
        assert(cs.take(i as int) =~= cs);
    }

    /// Checks that each committed plan equals the first preview of its
    /// step; otherwise reports the first commit that does not.
    pub fn assert_commits_match_previews(&self) -> (r: Result<(), HostConformanceError>)
        ensures
            r is Ok <==> commits_ok(self@),
            r matches Err(e) ==> commit_error(self@, e.deep_view()),
    {
        let ghost l = self@;
        let mut i: usize = 0;
        while i < self.commits.len()
            invariant
                i <= l.commits.len(),
                l == self@,
                forall|j: int| 0 <= j < i ==> #[trigger] commit_problem(l.previews, l.commits[j]) is None,
            decreases l.commits.len() - i,
        {
            let commit = &self.commits[i];
            let p = find_step(&self.previews, commit.step.as_str());
            assert(commit.deep_view() == l.commits[i as int]);
            if p >= self.previews.len() {
                let e = HostConformanceError::MissingPreview { step: commit.step.dup() };
                assert(commit_problem(l.previews, l.commits[i as int]) == Some(e.deep_view()));
                return Err(e);
            }
            let preview = &self.previews[p];
            assert(preview.deep_view() == l.previews[p as int]);
            if !same_commands(preview.commands.as_slice(), commit.commands.as_slice()) {
                let e = HostConformanceError::CommitDiffersFromPreview {
                    step: commit.step.dup(),
                    previewed: copy_commands(preview.commands.as_slice()),
                    committed: copy_commands(commit.commands.as_slice()),
                };
                assert(commit_problem(l.previews, l.commits[i as int]) == Some(e.deep_view()));
                return Err(e);
            }
            i = i + 1;
        }
        Ok(())
    }

    /// Checks that each effect was authorized by its step's committed
    /// plan; otherwise reports the first effect that was not.
    pub fn assert_effects_match_commits(&self) -> (r: Result<(), HostConformanceError>)
        ensures
            r is Ok <==> effects_ok(self@),
            r matches Err(e) ==> effect_error(self@, e.deep_view()),
    {
        let ghost l = self@;
        let mut i: usize = 0;
        while i < self.effects.len()
            invariant
                i <= l.effects.len(),
                l == self@,
                forall|j: int| 0 <= j < i ==> #[trigger] effect_authorized(l.commits, l.effects, j),
            decreases l.effects.len() - i,
        {
            let effect = &self.effects[i];
            assert(effect.deep_view() == l.effects[i as int]);
            let p = find_step(&self.commits, effect.step.as_str());
            let mut ok = false;
            if p < self.commits.len() {
                let allowed = count_commands(self.commits[p].commands.as_slice(), &effect.command);
                let used = count_effects_upto(&self.effects, i + 1, effect.step.as_str(), &effect.command);
                assert(self.commits[p as int].deep_view() == l.commits[p as int]);
                ok = used <= allowed;
                assert(ok == effect_authorized(l.commits, l.effects, i as int));
            } else {
                assert(!effect_authorized(l.commits, l.effects, i as int));
            }
            if !ok {
                let e = HostConformanceError::EffectWithoutCommit { effect: effect.dup() };
                return Err(e);
            }
            i = i + 1;
        }
        Ok(())
    }

    /// Checks that every effect site and every effect's executor is
    /// declared; otherwise reports the least undeclared site, or the first
    /// effect of an undeclared executor.
    pub fn assert_effects_use_declared_executors(&self) -> (r: Result<(), HostConformanceError>)
        ensures
            r is Ok <==> executors_ok(self@),
            r matches Err(e) ==> executor_error(self@, e.deep_view()),
    {
        let ghost l = self@;
        let undeclared = self.observed_effect_sites.difference(&self.declared_executors);
        proof {
            crate::strmap::lemma_sorted_no_dup(crate::strmap::views(undeclared@));
        }
        if undeclared.len() > 0 {
            let site = undeclared[0].dup();
            proof {
                let q = crate::strmap::views(undeclared@);
                lemma_least(q);
                assert(q.to_set().contains(q[0]));
                assert(!l.sites.subset_of(l.declared));
            }
            return Err(HostConformanceError::UndeclaredEffectSite { site });
        }
        proof {
            let q = crate::strmap::views(undeclared@);
            assert(q.len() == 0);
            assert forall|x: Seq<char>| l.sites.contains(x) implies l.declared.contains(x) by {
                if !l.declared.contains(x) {
                    assert(l.sites.difference(l.declared).contains(x));
                    assert(q.to_set().contains(x));
                }
            }
        }
        let mut i: usize = 0;
        while i < self.effects.len()
            invariant
                i <= l.effects.len(),
                l == self@,
                l.sites.subset_of(l.declared),
                forall|j: int| 0 <= j < i ==> l.declared.contains(#[trigger] l.effects[j].executor),
            decreases l.effects.len() - i,
        {
            let effect = &self.effects[i];
            assert(effect.deep_view() == l.effects[i as int]);
            if !self.declared_executors.contains(effect.executor.as_str()) {
                assert(!l.declared.contains(l.effects[i as int].executor));
                return Err(
                    HostConformanceError::EffectFromUndeclaredExecutor {
                        step: effect.step.dup(),
                        executor: effect.executor.dup(),
                    },
                );
            }
            i = i + 1;
        }
        Ok(())
    }

    /// Checks that some applied effect accounts for each host report;
    /// otherwise reports the first report none accounts for.
    pub fn assert_statuses_follow_effects(&self) -> (r: Result<(), HostConformanceError>)
        ensures
            r is Ok <==> statuses_ok(self@),
            r matches Err(e) ==> status_error(self@, e.deep_view()),
    {
        let ghost l = self@;
        let mut i: usize = 0;
        while i < self.statuses.len()
            invariant
                i <= l.statuses.len(),
                l == self@,
                forall|j: int| 0 <= j < i ==> #[trigger] report_explained(l.effects, l.statuses[j]),
            decreases l.statuses.len() - i,
        {
            let status = &self.statuses[i];
            assert(status.deep_view() == l.statuses[i as int]);
            let mut found = false;
            let mut k: usize = 0;
            while k < self.effects.len()
                invariant
                    k <= l.effects.len(),
                    l == self@,
                    i < l.statuses.len(),
                    status.deep_view() == l.statuses[i as int],
                    found ==> report_explained(l.effects, l.statuses[i as int]),
                    !found ==> forall|j: int| 0 <= j < k ==> !effect_explains(#[trigger] l.effects[j], l.statuses[i as int]),
                decreases l.effects.len() - k,
            {
                let effect = &self.effects[k];
                assert(effect.deep_view() == l.effects[k as int]);
                let fits = match &status.outcome {
                    crate::gate::plan::HostResourceOutcome::Open => effect.command.kind != ResourceCommandKind::Close,
                    crate::gate::plan::HostResourceOutcome::Closed => effect.command.kind == ResourceCommandKind::Close,
                    _ => true,
                };
                if effect.revision == status.command_revision && effect.command.scope == status.scope && fits
                    && str_eq(effect.command.key.as_str(), status.key.as_str()) {
                    found = true;
                }
                k = k + 1;
            }
            if !found {
                proof {
                    if report_explained(l.effects, l.statuses[i as int]) {
                        let j = choose|j: int| 0 <= j < l.effects.len() && effect_explains(l.effects[j], l.statuses[i as int]);
                        assert(!effect_explains(l.effects[j], l.statuses[i as int]));
                    }
                }
                return Err(HostConformanceError::StatusWithoutEffect { status: status.dup() });
            }
            i = i + 1;
        }
        Ok(())
    }

    /// Checks the chain in order: commits against previews, effects
    /// against commits, then executors; reports the first break.
    pub fn assert_host_seam_conforms(&self) -> (r: Result<(), HostConformanceError>)
        ensures
            r is Ok <==> commits_ok(self@) && effects_ok(self@) && executors_ok(self@),
            r matches Err(e) ==> {
                &&& !commits_ok(self@) ==> commit_error(self@, e.deep_view())
                &&& commits_ok(self@) && !effects_ok(self@) ==> effect_error(self@, e.deep_view())
                &&& commits_ok(self@) && effects_ok(self@) ==> executor_error(self@, e.deep_view())
            },
    {
        match self.assert_commits_match_previews() {
            Err(e) => {
                return Err(e);
            },
            Ok(()) => {},
        }
        match self.assert_effects_match_commits() {
            Err(e) => {
                return Err(e);
            },
            Ok(()) => {},
        }
        self.assert_effects_use_declared_executors()
    }
}

} // verus!
