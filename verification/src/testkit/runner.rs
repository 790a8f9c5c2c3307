//! An executable conformance suite: registered check outcomes and
//! explicit unsupported markers, reduced to a conformance report.
use vstd::prelude::*;
use crate::testkit::conformance::{ConformanceLevel, ConformanceReport, ConformanceSuite, LevelSet};
use crate::text::owned;

verus! {

/// Result returned by one executable conformance check.
#[derive(Clone, Debug)]
pub enum ConformanceCheckResult {
    /// The check passed.
    Passed,
    /// The check was skipped because the app does not support the hook.
    Unsupported(String),
    /// The check ran and failed with scenario/trace/invariant_name detail.
    Failed(String),
}

/// What a check result holds.
pub enum ConformanceCheckResultView {
    /// The check passed.
    Passed,
    /// The check was skipped, with the reason.
    Unsupported(Seq<char>),
    /// The check failed, with the detail.
    Failed(Seq<char>),
}

impl View for ConformanceCheckResult {
    type V = ConformanceCheckResultView;

    open spec fn view(&self) -> ConformanceCheckResultView {
        match self {
            ConformanceCheckResult::Passed => ConformanceCheckResultView::Passed,
            ConformanceCheckResult::Unsupported(r) => ConformanceCheckResultView::Unsupported(r@),
            ConformanceCheckResult::Failed(d) => ConformanceCheckResultView::Failed(d@),
        }
    }
}

impl ConformanceCheckResult {
    /// Creates a passed result.
    pub fn passed() -> (r: Self)
        ensures
            r@ == ConformanceCheckResultView::Passed,
    {
        ConformanceCheckResult::Passed
    }

    /// Creates an unsupported result with a reason.
    pub fn unsupported(reason: &str) -> (r: Self)
        ensures
            r@ == ConformanceCheckResultView::Unsupported(reason@),
    {
        ConformanceCheckResult::Unsupported(owned(reason))
    }

    /// Creates a failed result with diagnostic detail.
    pub fn failed(detail: &str) -> (r: Self)
        ensures
            r@ == ConformanceCheckResultView::Failed(detail@),
    {
        ConformanceCheckResult::Failed(owned(detail))
    }
}

/// Executed conformance check summary.
#[derive(Clone, Debug)]
pub struct ConformanceCheckReport {
    /// Conformance level exercised by this check.
    pub level: ConformanceLevel,
    /// Stable invariant_name or scenario name.
    pub invariant_name: String,
    /// Result returned by the check.
    pub result: ConformanceCheckResult,
}

/// Failure returned by an executable conformance suite.
#[derive(Clone, Debug)]
pub struct ConformanceFailure {
    /// Conformance level that failed.
    pub level: ConformanceLevel,
    /// Stable invariant_name or scenario name that failed.
    pub invariant_name: String,
    /// Scenario, trace, or assertion detail from the failing check.
    pub detail: String,
}

/// The name a level prints with.
pub open spec fn level_name(l: ConformanceLevel) -> Seq<char> {
    match l {
        ConformanceLevel::DeterministicTrace => "DeterministicTrace"@,
        ConformanceLevel::ScopeResourceLifecycle => "ScopeResourceLifecycle"@,
        ConformanceLevel::MaterializedOutput => "MaterializedOutput"@,
        ConformanceLevel::FullRecomputeOracle => "FullRecomputeOracle"@,
        ConformanceLevel::GeneratedModelSequences => "GeneratedModelSequences"@,
        ConformanceLevel::PerformanceSmoke => "PerformanceSmoke"@,
    }
}

fn level_text(l: ConformanceLevel) -> (r: String)
    ensures
        r@ == level_name(l),
{
    match l {
        ConformanceLevel::DeterministicTrace => owned("DeterministicTrace"),
        ConformanceLevel::ScopeResourceLifecycle => owned("ScopeResourceLifecycle"),
        ConformanceLevel::MaterializedOutput => owned("MaterializedOutput"),
        ConformanceLevel::FullRecomputeOracle => owned("FullRecomputeOracle"),
        ConformanceLevel::GeneratedModelSequences => owned("GeneratedModelSequences"),
        ConformanceLevel::PerformanceSmoke => owned("PerformanceSmoke"),
    }
}

impl ConformanceFailure {
    /// The failure as one line: level, invariant_name and detail.
    pub fn message(&self) -> (r: String)
        ensures
            r@ == level_name(self.level) + " conformance failed for "@ + self.invariant_name@ + ": "@
                + self.detail@,
    {
        let mut r = level_text(self.level);
        crate::text::append(&mut r, " conformance failed for ");
        crate::text::append(&mut r, self.invariant_name.as_str());
        crate::text::append(&mut r, ": ");
        crate::text::append(&mut r, self.detail.as_str());
        r
    }
}

/// Executable opt-in conformance suite for application graphs.
pub struct ConformanceRunner {
    suite: ConformanceSuite,
    checks: Vec<ConformanceCheckReport>,
    unsupported: Vec<(ConformanceLevel, String)>,
}

/// What a runner holds: the required levels, the registered check
/// outcomes, and the explicit unsupported markers with their reasons.
pub struct ConformanceRunnerView {
    /// Required levels.
    pub required: Set<ConformanceLevel>,
    /// Registered checks: level, invariant_name and outcome.
    pub checks: Seq<(ConformanceLevel, Seq<char>, ConformanceCheckResultView)>,
    /// Explicitly unsupported levels, with reasons.
    pub unsupported: Seq<(ConformanceLevel, Seq<char>)>,
}

/// What a conformance check holds.
pub open spec fn check_view(c: ConformanceCheckReport) -> (ConformanceLevel, Seq<char>, ConformanceCheckResultView) {
    (c.level, c.invariant_name@, c.result@)
}

impl View for ConformanceRunner {
    type V = ConformanceRunnerView;

    closed spec fn view(&self) -> ConformanceRunnerView {
        ConformanceRunnerView {
            required: self.suite@,
            checks: self.checks@.map_values(|c: ConformanceCheckReport| check_view(c)),
            unsupported: self.unsupported@.map_values(|u: (ConformanceLevel, String)| (u.0, u.1@)),
        }
    }
}

/// Creates an empty executable conformance runner.
pub fn conformance() -> (r: ConformanceRunner)
    ensures
        r@.required == Set::<ConformanceLevel>::empty(),
        r@.checks.len() == 0,
        r@.unsupported.len() == 0,
{
    ConformanceRunner::new(ConformanceSuite::new())
}

/// Whether a level has a registered check.
pub open spec fn seen(checks: Seq<(ConformanceLevel, Seq<char>, ConformanceCheckResultView)>, l: ConformanceLevel) -> bool {
    exists|i: int| 0 <= i < checks.len() && (#[trigger] checks[i]).0 == l
}

/// Whether a level is marked unsupported, explicitly or by a check that
/// was skipped.
pub open spec fn marked_unsupported(r: ConformanceRunnerView, l: ConformanceLevel) -> bool {
    (exists|i: int| 0 <= i < r.unsupported.len() && (#[trigger] r.unsupported[i]).0 == l) || (exists|i: int|
        0 <= i < r.checks.len() && (#[trigger] r.checks[i]).0 == l && r.checks[i].2 is Unsupported)
}

/// Whether a check failed.
pub open spec fn failed_at(r: ConformanceRunnerView, i: int) -> bool {
    0 <= i < r.checks.len() && r.checks[i].2 is Failed
}

/// The report of a run without failures: a required level is supported
/// when some check exercised it and nothing marked it unsupported, and is
/// unsupported otherwise.
pub open spec fn run_report(r: ConformanceRunnerView) -> crate::testkit::conformance::ConformanceReportView {
    let ok = Set::new(|l: ConformanceLevel| seen(r.checks, l) && !marked_unsupported(r, l));
    crate::testkit::conformance::ConformanceReportView {
        supported: r.required.intersect(ok),
        unsupported: r.required.difference(ok),
    }
}

impl ConformanceRunner {
    /// Creates a runner from a required-level suite.
    pub fn new(suite: ConformanceSuite) -> (r: Self)
        ensures
            r@.required == suite@,
            r@.checks.len() == 0,
            r@.unsupported.len() == 0,
    {
        ConformanceRunner { suite, checks: Vec::new(), unsupported: Vec::new() }
    }

    /// Requires a level even if no check has been registered yet.
    pub fn require(self, level: ConformanceLevel) -> (r: Self)
        ensures
            r@ == (ConformanceRunnerView { required: self@.required.insert(level), ..self@ }),
    {
        let ConformanceRunner { suite, checks, unsupported } = self;
        let r = ConformanceRunner { suite: suite.require(level), checks, unsupported };
        r
    }

    /// Records the outcome of an executable conformance check, and requires
    /// its level.
    pub fn check(self, level: ConformanceLevel, invariant_name: &str, result: ConformanceCheckResult) -> (r:
        Self)
        ensures
            r@ == (ConformanceRunnerView {
                required: self@.required.insert(level),
                checks: self@.checks.push((level, invariant_name@, result@)),
                ..self@
            }),
    {
        let ConformanceRunner { suite, checks, unsupported } = self;
        let mut checks = checks;
        let c = ConformanceCheckReport { level, invariant_name: owned(invariant_name), result };
        let ghost old_checks = checks@;
        checks.push(c);
        let r = ConformanceRunner { suite: suite.require(level), checks, unsupported };
        assert(r@.checks =~= old_checks.map_values(|c: ConformanceCheckReport| check_view(c)).push(
            (level, invariant_name@, c.result@),
        ));
        r
    }

    /// Marks a level unsupported with an explicit reason, and requires it.
    pub fn unsupported(self, level: ConformanceLevel, reason: &str) -> (r: Self)
        ensures
            r@ == (ConformanceRunnerView {
                required: self@.required.insert(level),
                unsupported: self@.unsupported.push((level, reason@)),
                ..self@
            }),
    {
        let ConformanceRunner { suite, checks, unsupported } = self;
        let mut unsupported = unsupported;
        let ghost old_u = unsupported@;
        unsupported.push((level, owned(reason)));
        let r = ConformanceRunner { suite: suite.require(level), checks, unsupported };
        assert(r@.unsupported =~= old_u.map_values(|u: (ConformanceLevel, String)| (u.0, u.1@)).push(
            (level, reason@),
        ));
        r
    }

    /// Reduces the recorded checks to a report: the first failed check is
    /// returned as the failure; otherwise each required level is supported
    /// when some check exercised it and nothing marked it unsupported.
    pub fn run(self) -> (r: Result<ConformanceReport, ConformanceFailure>)
        ensures
            match r {
                Err(f) => exists|i: int|
                    #![trigger failed_at(self@, i)]
                    failed_at(self@, i) && (forall|j: int| 0 <= j < i ==> !failed_at(self@, j))
                        && f.level == self@.checks[i].0 && f.invariant_name@ == self@.checks[i].1
                        && self@.checks[i].2 == ConformanceCheckResultView::Failed(f.detail@),
                Ok(report) => (forall|i: int| !failed_at(self@, i)) && report@ == run_report(self@),
            },
    {
        let ghost v = self@;
        let mut seen_set = LevelSet::new();
        let mut blocked = LevelSet::new();
        let mut i: usize = 0;
        while i < self.checks.len()
            invariant
                v == self@,
                i <= v.checks.len(),
                v.checks.len() == self.checks@.len(),
                forall|j: int| 0 <= j < i ==> !failed_at(v, j),
                forall|l: ConformanceLevel| #[trigger] seen_set@.contains(l) <==> exists|j: int| 0 <= j < i && (#[trigger] v.checks[j]).0 == l,
                forall|l: ConformanceLevel|
                    #[trigger] blocked@.contains(l) <==> exists|j: int|
                        0 <= j < i && (#[trigger] v.checks[j]).0 == l && v.checks[j].2 is Unsupported,
            decreases v.checks.len() - i,
        {
            let c = &self.checks[i];
            assert(v.checks[i as int] == check_view(*c));
            let ghost old_seen = seen_set@;
            let ghost old_blocked = blocked@;
            match &c.result {
                ConformanceCheckResult::Failed(detail) => {
                    let f = ConformanceFailure {
                        level: c.level,
                        invariant_name: c.invariant_name.clone(),
                        detail: detail.clone(),
                    };
                    assert(failed_at(v, i as int));
                    return Err(f);
                },
                ConformanceCheckResult::Unsupported(_) => {
                    blocked.set(c.level, true);
                },
                ConformanceCheckResult::Passed => {},
            }
            seen_set.set(c.level, true);
            proof {
                let ci = v.checks[i as int];
                assert(seen_set@ == old_seen.insert(ci.0));
                assert(blocked@ == if ci.2 is Unsupported {
                    old_blocked.insert(ci.0)
                } else {
                    old_blocked
                });
                assert forall|l: ConformanceLevel| #[trigger] seen_set@.contains(l) <==> exists|j: int|
                    0 <= j < i + 1 && (#[trigger] v.checks[j]).0 == l by {
                    if seen_set@.contains(l) {
                        if l == ci.0 {
                            assert(v.checks[i as int].0 == l);
                        } else {
                            assert(old_seen.contains(l));
                            let j = choose|j: int| 0 <= j < i && (#[trigger] v.checks[j]).0 == l;
                            assert(v.checks[j].0 == l);
                        }
                    }
                    if exists|j: int| 0 <= j < i + 1 && (#[trigger] v.checks[j]).0 == l {
                        let j = choose|j: int| 0 <= j < i + 1 && (#[trigger] v.checks[j]).0 == l;
                        if j < i {
                            assert(old_seen.contains(l));
                        }
                    }
                }
                assert forall|l: ConformanceLevel|
                    #[trigger] blocked@.contains(l) <==> exists|j: int|
                        0 <= j < i + 1 && (#[trigger] v.checks[j]).0 == l && v.checks[j].2 is Unsupported by {
                    if blocked@.contains(l) {
                        if ci.2 is Unsupported && l == ci.0 {
                            assert(v.checks[i as int].0 == l);
                        } else {
                            assert(old_blocked.contains(l));
                            let j = choose|j: int|
                                0 <= j < i && (#[trigger] v.checks[j]).0 == l && v.checks[j].2 is Unsupported;
                            assert(v.checks[j].0 == l);
                        }
                    }
                    if exists|j: int|
                        0 <= j < i + 1 && (#[trigger] v.checks[j]).0 == l && v.checks[j].2 is Unsupported {
                        let j = choose|j: int|
                            0 <= j < i + 1 && (#[trigger] v.checks[j]).0 == l && v.checks[j].2 is Unsupported;
                        if j < i {
                            assert(old_blocked.contains(l));
                        }
                    }
                }
            }
            i = i + 1;
        }
        assert forall|l: ConformanceLevel| #[trigger] seen_set@.contains(l) == seen(v.checks, l) by {
            if seen(v.checks, l) {
                let j = choose|j: int| 0 <= j < v.checks.len() && (#[trigger] v.checks[j]).0 == l;
            }
        }
        let mut k: usize = 0;
        while k < self.unsupported.len()
            invariant
                v == self@,
                k <= v.unsupported.len(),
                v.unsupported.len() == self.unsupported@.len(),
                forall|l: ConformanceLevel| #[trigger] seen_set@.contains(l) == seen(v.checks, l),
                forall|j: int| 0 <= j < v.checks.len() ==> !failed_at(v, j),
                forall|l: ConformanceLevel|
                    #[trigger] blocked@.contains(l) <==> ((exists|j: int|
                        0 <= j < v.checks.len() && (#[trigger] v.checks[j]).0 == l && v.checks[j].2 is Unsupported)
                        || exists|j: int| 0 <= j < k && (#[trigger] v.unsupported[j]).0 == l),
            decreases v.unsupported.len() - k,
        {
            let l = self.unsupported[k].0;
            assert(v.unsupported[k as int].0 == l);
            let ghost old_blocked = blocked@;
            blocked.set(l, true);
            proof {
                assert forall|x: ConformanceLevel|
                    #[trigger] blocked@.contains(x) <==> ((exists|j: int|
                        0 <= j < v.checks.len() && (#[trigger] v.checks[j]).0 == x && v.checks[j].2 is Unsupported)
                        || exists|j: int| 0 <= j < k + 1 && (#[trigger] v.unsupported[j]).0 == x) by {
                    if blocked@.contains(x) && x != l {
                        assert(old_blocked.contains(x));
                        if exists|j: int| 0 <= j < k && (#[trigger] v.unsupported[j]).0 == x {
                            let j = choose|j: int| 0 <= j < k && (#[trigger] v.unsupported[j]).0 == x;
                            assert(v.unsupported[j].0 == x);
                        }
                    }
                    if x == l {
                        assert(v.unsupported[k as int].0 == x);
                    }
                    if exists|j: int| 0 <= j < k + 1 && (#[trigger] v.unsupported[j]).0 == x {
                        let j = choose|j: int| 0 <= j < k + 1 && (#[trigger] v.unsupported[j]).0 == x;
                        if j < k {
                            assert(old_blocked.contains(x));
                        }
                    }
                }
            }
            k = k + 1;
        }
        assert forall|l: ConformanceLevel| #[trigger] blocked@.contains(l) == marked_unsupported(v, l) by {
        }
        let levels = self.suite.required_levels();
        let mut report = ConformanceReport::new();
        let ghost ok = Set::new(|l: ConformanceLevel| seen(v.checks, l) && !marked_unsupported(v, l));
        let mut j: usize = 0;
        while j < levels.len()
            invariant
                v == self@,
                levels@ == crate::testkit::conformance::levels_in(v.required),
                ok == Set::new(|l: ConformanceLevel| seen(v.checks, l) && !marked_unsupported(v, l)),
                forall|l: ConformanceLevel| #[trigger] seen_set@.contains(l) == seen(v.checks, l),
                forall|l: ConformanceLevel| #[trigger] blocked@.contains(l) == marked_unsupported(v, l),
                forall|i: int| 0 <= i < v.checks.len() ==> !failed_at(v, i),
                j <= levels@.len(),
                report@.supported == levels@.take(j as int).to_set().intersect(ok),
                report@.unsupported == levels@.take(j as int).to_set().difference(ok),
            decreases levels.len() - j,
        {
            let l = levels[j];
            proof {
                assert(levels@.take(j + 1) =~= levels@.take(j as int).push(l));
                levels@.take(j as int).lemma_push_to_set_commute(l);
            }
            assert(ok.contains(l) == (!blocked@.contains(l) && seen_set@.contains(l)));
            if !blocked.contains(l) && seen_set.contains(l) {
                report = report.support(l);
            } else {
                report = report.unsupported(l);
            }
            assert(report@.supported =~= levels@.take(j + 1).to_set().intersect(ok));
            assert(report@.unsupported =~= levels@.take(j + 1).to_set().difference(ok));
            j = j + 1;
        }
        proof {
            assert(levels@.take(levels@.len() as int) =~= levels@);
            crate::testkit::conformance::lemma_levels_in(v.required);
            assert(report@.supported =~= v.required.intersect(ok));
            assert(report@.unsupported =~= v.required.difference(ok));
        }
        Ok(report)
    }
}

} // verus!
