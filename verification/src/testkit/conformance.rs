//! Opt-in conformance levels, and the reports of which levels a test
//! target supports.
use vstd::prelude::*;

verus! {

/// Opt-in conformance levels for application graph tests.
#[derive(Clone, Copy, Debug, PartialEq, Eq, Structural, Hash, PartialOrd, Ord)]
pub enum ConformanceLevel {
    /// Deterministic transaction trace and phase order.
    DeterministicTrace,
    /// Scope and resource lifecycle.
    ScopeResourceLifecycle,
    /// Materialized output coherence.
    MaterializedOutput,
    /// Full-recompute oracle equivalence.
    FullRecomputeOracle,
    /// Generated/model sequence checks.
    GeneratedModelSequences,
    /// Performance/allocation smoke checks.
    PerformanceSmoke,
}

/// The position of a level in level order.
pub open spec fn level_index(l: ConformanceLevel) -> int {
    match l {
        ConformanceLevel::DeterministicTrace => 0,
        ConformanceLevel::ScopeResourceLifecycle => 1,
        ConformanceLevel::MaterializedOutput => 2,
        ConformanceLevel::FullRecomputeOracle => 3,
        ConformanceLevel::GeneratedModelSequences => 4,
        ConformanceLevel::PerformanceSmoke => 5,
    }
}

/// Every level, in level order.
pub open spec fn all_levels() -> Seq<ConformanceLevel> {
    seq![
        ConformanceLevel::DeterministicTrace,
        ConformanceLevel::ScopeResourceLifecycle,
        ConformanceLevel::MaterializedOutput,
        ConformanceLevel::FullRecomputeOracle,
        ConformanceLevel::GeneratedModelSequences,
        ConformanceLevel::PerformanceSmoke,
    ]
}

/// The levels of a set, in level order.
pub open spec fn levels_in(s: Set<ConformanceLevel>) -> Seq<ConformanceLevel> {
    all_levels().filter(|l: ConformanceLevel| s.contains(l))
}

/// A level is listed exactly when it is in the set.
pub proof fn lemma_levels_in(s: Set<ConformanceLevel>)
    ensures
        forall|l: ConformanceLevel| #[trigger] levels_in(s).contains(l) <==> s.contains(l),
{
    let pred = |x: ConformanceLevel| s.contains(x);
    all_levels().filter_lemma(pred);
    assert forall|l: ConformanceLevel| #[trigger] levels_in(s).contains(l) <==> s.contains(l) by {
        if s.contains(l) {
            assert(all_levels()[level_index(l)] == l);
            assert(all_levels().contains(l));
        }
    }
}

fn index_of(l: ConformanceLevel) -> (i: usize)
    ensures
        i == level_index(l),
{
    match l {
        ConformanceLevel::DeterministicTrace => 0,
        ConformanceLevel::ScopeResourceLifecycle => 1,
        ConformanceLevel::MaterializedOutput => 2,
        ConformanceLevel::FullRecomputeOracle => 3,
        ConformanceLevel::GeneratedModelSequences => 4,
        ConformanceLevel::PerformanceSmoke => 5,
    }
}

fn level_at(i: usize) -> (l: ConformanceLevel)
    requires
        i < 6,
    ensures
        l == all_levels()[i as int],
        level_index(l) == i,
{
    if i == 0 {
        ConformanceLevel::DeterministicTrace
    } else if i == 1 {
        ConformanceLevel::ScopeResourceLifecycle
    } else if i == 2 {
        ConformanceLevel::MaterializedOutput
    } else if i == 3 {
        ConformanceLevel::FullRecomputeOracle
    } else if i == 4 {
        ConformanceLevel::GeneratedModelSequences
    } else {
        ConformanceLevel::PerformanceSmoke
    }
}

/// A set of conformance levels.
#[derive(Debug, PartialEq, Eq)]
pub struct LevelSet {
    flags: Vec<bool>,
}

impl LevelSet {
    #[verifier::type_invariant]
    spec fn wf(&self) -> bool {
        self.flags@.len() == 6
    }

    /// The levels in the set.
    pub closed spec fn members(&self) -> Set<ConformanceLevel> {
        Set::new(|l: ConformanceLevel| self.flags@[level_index(l)])
    }

    /// The empty set.
    pub fn new() -> (s: Self)
        ensures
            s.members() == Set::<ConformanceLevel>::empty(),
    {
        let s = LevelSet { flags: vec![false, false, false, false, false, false] };
        assert(s.members() =~= Set::<ConformanceLevel>::empty());
        s
    }

    /// Whether the level is in the set.
    pub fn contains(&self, l: ConformanceLevel) -> (b: bool)
        ensures
            b == self.members().contains(l),
    {
        proof {
            use_type_invariant(self);
        }
        self.flags[index_of(l)]
    }

    /// Sets whether the level is in the set.
    pub fn set(&mut self, l: ConformanceLevel, member: bool)
        ensures
            final(self).members() == if member {
                old(self).members().insert(l)
            } else {
                old(self).members().remove(l)
            },
    {
        proof {
            use_type_invariant(&*self);
        }
        let i = index_of(l);
        let mut flags = self.flags.clone();
        flags.set(i, member);
        *self = LevelSet { flags };
        proof {
            let want = if member {
                old(self).members().insert(l)
            } else {
                old(self).members().remove(l)
            };
            assert forall|x: ConformanceLevel| #[trigger] self.members().contains(x) == want.contains(x) by {
                if x != l {
                    assert(level_index(x) != level_index(l));
                }
            }
            assert(self.members() =~= want);
        }
    }

    /// The levels of the set, in level order.
    pub fn to_vec(&self) -> (r: Vec<ConformanceLevel>)
        ensures
            r@ == levels_in(self.members()),
    {
        proof {
            use_type_invariant(self);
        }
        let ghost s = self.members();
        let ghost pred = |l: ConformanceLevel| s.contains(l);
        let mut r: Vec<ConformanceLevel> = Vec::new();
        let mut i: usize = 0;
        while i < 6
            invariant
                s == self.members(),
                self.flags@.len() == 6,
                pred == (|l: ConformanceLevel| s.contains(l)),
                i <= 6,
                r@ == all_levels().take(i as int).filter(pred),
            decreases 6 - i,
        {
            let l = level_at(i);
            proof {
                assert(all_levels().take(i + 1) =~= all_levels().take(i as int).push(l));
                all_levels().take(i as int).lemma_filter_push(l, pred);
                assert(s.contains(l) == self.flags@[i as int]);
            }
            if self.flags[i] {
                r.push(l);
            }
            i = i + 1;
        }
        assert(all_levels().take(6) =~= all_levels());
        r
    }
}

impl Clone for LevelSet {
    fn clone(&self) -> (r: Self)
        ensures
            r.members() == self.members(),
    {
        proof {
            use_type_invariant(self);
        }
        let r = LevelSet { flags: self.flags.clone() };
        assert(r.flags@ =~= self.flags@);
        assert(r.members() =~= self.members());
        r
    }
}

impl View for LevelSet {
    type V = Set<ConformanceLevel>;

    open spec fn view(&self) -> Set<ConformanceLevel> {
        self.members()
    }
}

impl Default for ConformanceReport {
    fn default() -> (r: Self)
        ensures
            r@.supported == Set::<ConformanceLevel>::empty(),
            r@.unsupported == Set::<ConformanceLevel>::empty(),
    {
        ConformanceReport::new()
    }
}

impl Default for ConformanceSuite {
    fn default() -> (s: Self)
        ensures
            s@ == Set::<ConformanceLevel>::empty(),
    {
        ConformanceSuite::new()
    }
}

/// Report of supported and unsupported conformance levels.
#[derive(Clone, Debug, PartialEq, Eq)]
pub struct ConformanceReport {
    supported: LevelSet,
    unsupported: LevelSet,
}

/// What a conformance report holds.
pub struct ConformanceReportView {
    /// Levels the target supports.
    pub supported: Set<ConformanceLevel>,
    /// Levels the target explicitly does not support.
    pub unsupported: Set<ConformanceLevel>,
}

impl View for ConformanceReport {
    type V = ConformanceReportView;

    closed spec fn view(&self) -> ConformanceReportView {
        ConformanceReportView { supported: self.supported@, unsupported: self.unsupported@ }
    }
}

impl ConformanceReport {
    /// Creates an empty report.
    pub fn new() -> (r: Self)
        ensures
            r@.supported == Set::<ConformanceLevel>::empty(),
            r@.unsupported == Set::<ConformanceLevel>::empty(),
    {
        ConformanceReport { supported: LevelSet::new(), unsupported: LevelSet::new() }
    }

    /// Marks a level as supported by the test target.
    pub fn support(self, level: ConformanceLevel) -> (r: Self)
        ensures
            r@.supported == self@.supported.insert(level),
            r@.unsupported == self@.unsupported.remove(level),
    {
        let mut r = self;
        r.unsupported.set(level, false);
        r.supported.set(level, true);
        r
    }

    /// Marks a level as explicitly unsupported by the test target.
    pub fn unsupported(self, level: ConformanceLevel) -> (r: Self)
        ensures
            r@.supported == self@.supported.remove(level),
            r@.unsupported == self@.unsupported.insert(level),
    {
        let mut r = self;
        r.supported.set(level, false);
        r.unsupported.set(level, true);
        r
    }

    /// Returns supported levels, in level order.
    pub fn supported_levels(&self) -> (r: Vec<ConformanceLevel>)
        ensures
            r@ == levels_in(self@.supported),
    {
        self.supported.to_vec()
    }

    /// Returns explicitly unsupported levels, in level order.
    pub fn unsupported_levels(&self) -> (r: Vec<ConformanceLevel>)
        ensures
            r@ == levels_in(self@.unsupported),
    {
        self.unsupported.to_vec()
    }

    /// Returns true if a level is supported.
    pub fn supports(&self, level: ConformanceLevel) -> (b: bool)
        ensures
            b == self@.supported.contains(level),
    {
        self.supported.contains(level)
    }
}

/// Opt-in set of conformance levels an application wants to exercise.
#[derive(Clone, Debug, PartialEq, Eq)]
pub struct ConformanceSuite {
    required: LevelSet,
}

impl View for ConformanceSuite {
    type V = Set<ConformanceLevel>;

    closed spec fn view(&self) -> Set<ConformanceLevel> {
        self.required@
    }
}

/// What a suite reports for the supported levels: its required levels,
/// each supported when listed and explicitly unsupported otherwise.
pub open spec fn suite_report(required: Set<ConformanceLevel>, supported: Set<ConformanceLevel>) -> ConformanceReportView {
    ConformanceReportView {
        supported: required.intersect(supported),
        unsupported: required.difference(supported),
    }
}

impl ConformanceSuite {
    /// Creates an empty conformance suite.
    pub fn new() -> (s: Self)
        ensures
            s@ == Set::<ConformanceLevel>::empty(),
    {
        ConformanceSuite { required: LevelSet::new() }
    }

    /// Creates a suite requiring all currently defined levels.
    pub fn all() -> (s: Self)
        ensures
            s@ == Set::<ConformanceLevel>::full(),
    {
        let mut suite = Self::new();
        let mut i: usize = 0;
        while i < 6
            invariant
                i <= 6,
                suite@ == Set::new(|l: ConformanceLevel| level_index(l) < i),
            decreases 6 - i,
        {
            let l = level_at(i);
            suite = suite.require(l);
            assert(suite@ =~= Set::new(|x: ConformanceLevel| level_index(x) < i + 1));
            i = i + 1;
        }
        assert(suite@ =~= Set::<ConformanceLevel>::full());
        suite
    }

    /// Adds a required level to this suite.
    pub fn require(self, level: ConformanceLevel) -> (s: Self)
        ensures
            s@ == self@.insert(level),
    {
        let mut s = self;
        s.required.set(level, true);
        s
    }

    /// Returns required levels, in level order.
    pub fn required_levels(&self) -> (r: Vec<ConformanceLevel>)
        ensures
            r@ == levels_in(self@),
    {
        self.required.to_vec()
    }

    /// Builds a report, marking required but unsupported levels explicitly.
    pub fn report(&self, supported: &[ConformanceLevel]) -> (r: ConformanceReport)
        ensures
            r@ == suite_report(self@, supported@.to_set()),
    {
        let mut listed = LevelSet::new();
        let mut i: usize = 0;
        while i < supported.len()
            invariant
                i <= supported@.len(),
                listed@ == supported@.take(i as int).to_set(),
            decreases supported.len() - i,
        {
            listed.set(supported[i], true);
            proof {
                assert(supported@.take(i + 1) =~= supported@.take(i as int).push(supported@[i as int]));
                supported@.take(i as int).lemma_push_to_set_commute(supported@[i as int]);
            }
            i = i + 1;
        }
        assert(supported@.take(supported@.len() as int) =~= supported@);
        let levels = self.required.to_vec();
        let mut report = ConformanceReport::new();
        let mut j: usize = 0;
        let ghost req = self@;
        let ghost sup = supported@.to_set();
        while j < levels.len()
            invariant
                levels@ == levels_in(req),
                req == self@,
                sup == supported@.to_set(),
                listed@ == sup,
                j <= levels@.len(),
                report@.supported == levels@.take(j as int).to_set().intersect(sup),
                report@.unsupported == levels@.take(j as int).to_set().difference(sup),
            decreases levels.len() - j,
        {
            let l = levels[j];
            proof {
                assert(levels@.take(j + 1) =~= levels@.take(j as int).push(l));
                levels@.take(j as int).lemma_push_to_set_commute(l);
            }
            if listed.contains(l) {
                report = report.support(l);
            } else {
                report = report.unsupported(l);
            }
            assert(report@.supported =~= levels@.take(j + 1).to_set().intersect(sup));
            assert(report@.unsupported =~= levels@.take(j + 1).to_set().difference(sup));
            j = j + 1;
        }
        proof {
            assert(levels@.take(levels@.len() as int) =~= levels@);
            lemma_levels_in(req);
            assert(report@.supported =~= req.intersect(sup));
            assert(report@.unsupported =~= req.difference(sup));
        }
        report
    }
}

} // verus!
