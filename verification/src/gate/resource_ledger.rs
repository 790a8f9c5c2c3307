//! A fake host that applies committed resource plans and tracks, per
//! resource key, which scopes own it and how often it was opened, closed
//! and replaced; it classifies host status reports against what it holds.
use vstd::prelude::*;
use crate::dup::Dup;
use crate::gate::plan::{
    HostStatusClass, HostStatusEvent, HostStatusEventView, HostStatusRecord, HostStatusRecordView, ResourceCommand,
    ResourceCommandKind, ResourceCommandView, StatusId, TransactionResult,
};
use crate::gate::scopes::ScopeSet;
use crate::strmap::{least, lemma_least, views, StrMap, StrSet};
use crate::text::{str_eq, seq_lt};

verus! {

/// The ledger's record of one resource key.
#[derive(Debug)]
pub struct ResourceSnapshot {
    /// Scopes that own the resource.
    pub owners: ScopeSet,
    /// Open commands seen.
    pub open_count: usize,
    /// Close commands seen.
    pub close_count: usize,
    /// Replace commands seen.
    pub replace_count: usize,
    /// Revision of the last command for the key.
    pub command_revision: u64,
    /// Number of commands applied to the key since it was first opened.
    pub generation: u64,
}

/// What a `ResourceSnapshot` holds, as mathematical values.
pub struct ResourceSnapshotView {
    /// Scopes that own the resource.
    pub owners: Set<u64>,
    /// Open commands seen.
    pub open_count: usize,
    /// Close commands seen.
    pub close_count: usize,
    /// Replace commands seen.
    pub replace_count: usize,
    /// Revision of the last command for the key.
    pub command_revision: u64,
    /// Number of commands applied to the key since it was first opened.
    pub generation: u64,
}

impl DeepView for ResourceSnapshot {
    type V = ResourceSnapshotView;

    open spec fn deep_view(&self) -> ResourceSnapshotView {
        ResourceSnapshotView {
            owners: self.owners@,
            open_count: self.open_count,
            close_count: self.close_count,
            replace_count: self.replace_count,
            command_revision: self.command_revision,
            generation: self.generation,
        }
    }
}

impl Dup for ResourceSnapshot {
    fn dup(&self) -> (r: Self) {
        ResourceSnapshot {
            owners: self.owners.dup(),
            open_count: self.open_count,
            close_count: self.close_count,
            replace_count: self.replace_count,
            command_revision: self.command_revision,
            generation: self.generation,
        }
    }
}

/// A failed ledger check.
#[derive(Debug)]
pub enum ResourceLedgerError {
    /// A tracked resource has no owner.
    Orphan(String),
    /// A close arrived for a scope that did not own the resource.
    DuplicateClose(String),
    /// A forbidden resource was opened.
    ForbiddenOpen(String),
    /// The resource is still open.
    StillOpen(String),
    /// The resource's owners are not the expected ones.
    OwnerMismatch {
        /// The resource key.
        key: String,
        /// The expected owners.
        expected: ScopeSet,
        /// The actual owners.
        actual: ScopeSet,
    },
    /// The applied commands are not the expected ones.
    CommandOrderMismatch {
        /// The expected commands.
        expected: Vec<ResourceCommand>,
        /// The applied commands.
        actual: Vec<ResourceCommand>,
    },
}

/// A fake host applying resource plans.
#[derive(Debug)]
pub struct ResourceLedger {
    resources: StrMap<ResourceSnapshot>,
    duplicate_closes: StrSet,
    forbidden: StrSet,
    forbidden_opened: StrSet,
    accepted_status: Vec<HostStatusEvent>,
    status_records: Vec<HostStatusRecord>,
    command_trace: Vec<ResourceCommand>,
}

/// What a `ResourceLedger` holds, as mathematical values.
pub struct ResourceLedgerView {
    /// The tracked resources.
    pub resources: Map<Seq<char>, ResourceSnapshotView>,
    /// Keys that saw a close without a matching owner.
    pub duplicate_closes: Set<Seq<char>>,
    /// Keys that must not be opened.
    pub forbidden: Set<Seq<char>>,
    /// Forbidden keys that were opened.
    pub forbidden_opened: Set<Seq<char>>,
    /// Status reports accepted as current.
    pub accepted: Set<StatusId>,
    /// Every classified status report, in delivery order.
    pub status_records: Seq<HostStatusRecordView>,
    /// Every applied command, in delivery order.
    pub command_trace: Seq<ResourceCommandView>,
}

/// The identities of the reports.
pub open spec fn status_ids(s: Seq<HostStatusEventView>) -> Set<StatusId> {
    Set::new(|x: StatusId| exists|i: int| 0 <= i < s.len() && s[i].id() == x)
}

impl View for ResourceLedger {
    type V = ResourceLedgerView;

    closed spec fn view(&self) -> ResourceLedgerView {
        ResourceLedgerView {
            resources: self.resources@,
            duplicate_closes: self.duplicate_closes@,
            forbidden: self.forbidden@,
            forbidden_opened: self.forbidden_opened@,
            accepted: status_ids(self.accepted_status.deep_view()),
            status_records: self.status_records.deep_view(),
            command_trace: self.command_trace.deep_view(),
        }
    }
}

// ---------------------------------------------------------------------
// The model
// ---------------------------------------------------------------------
/// The record of a key first seen at `revision`.
pub open spec fn fresh_snapshot(revision: u64) -> ResourceSnapshotView {
    ResourceSnapshotView {
        owners: Set::empty(),
        open_count: 0,
        close_count: 0,
        replace_count: 0,
        command_revision: revision,
        generation: 0,
    }
}

/// The ledger after one command of a plan committed at `revision`.
pub open spec fn apply_cmd(l: ResourceLedgerView, c: ResourceCommandView, revision: u64) -> ResourceLedgerView {
    let known = l.resources.contains_key(c.key);
    match c.kind {
        ResourceCommandKind::Open => {
            let s0 = if known { l.resources[c.key] } else { fresh_snapshot(revision) };
            let s1 = ResourceSnapshotView {
                owners: s0.owners.insert(c.scope),
                open_count: (s0.open_count + 1) as usize,
                command_revision: revision,
                generation: (s0.generation + 1) as u64,
                ..s0
            };
            ResourceLedgerView {
                resources: l.resources.insert(c.key, s1),
                forbidden_opened: if l.forbidden.contains(c.key) {
                    l.forbidden_opened.insert(c.key)
                } else {
                    l.forbidden_opened
                },
                ..l
            }
        },
        ResourceCommandKind::Replace => {
            let s0 = if known { l.resources[c.key] } else { fresh_snapshot(revision) };
            let s1 = ResourceSnapshotView {
                owners: s0.owners.insert(c.scope),
                replace_count: (s0.replace_count + 1) as usize,
                command_revision: revision,
                generation: (s0.generation + 1) as u64,
                ..s0
            };
            ResourceLedgerView { resources: l.resources.insert(c.key, s1), ..l }
        },
        ResourceCommandKind::Close => {
            if !known {
                ResourceLedgerView { duplicate_closes: l.duplicate_closes.insert(c.key), ..l }
            } else {
                let s0 = l.resources[c.key];
                let s1 = ResourceSnapshotView {
                    owners: s0.owners.remove(c.scope),
                    close_count: (s0.close_count + 1) as usize,
                    command_revision: revision,
                    generation: (s0.generation + 1) as u64,
                    ..s0
                };
                ResourceLedgerView {
                    resources: if s1.owners.is_empty() {
                        l.resources.remove(c.key)
                    } else {
                        l.resources.insert(c.key, s1)
                    },
                    duplicate_closes: if s0.owners.contains(c.scope) {
                        l.duplicate_closes
                    } else {
                        l.duplicate_closes.insert(c.key)
                    },
                    ..l
                }
            }
        },
        ResourceCommandKind::Refresh => {
            if known {
                let s0 = l.resources[c.key];
                let s1 = ResourceSnapshotView {
                    command_revision: revision,
                    generation: (s0.generation + 1) as u64,
                    ..s0
                };
                ResourceLedgerView { resources: l.resources.insert(c.key, s1), ..l }
            } else {
                l
            }
        },
    }
}

/// The ledger after the commands of a plan committed at `revision`, in
/// order.
pub open spec fn apply_cmds(l: ResourceLedgerView, cs: Seq<ResourceCommandView>, revision: u64) -> ResourceLedgerView
    decreases cs.len(),
{
    if cs.len() == 0 {
        l
    } else {
        apply_cmd(apply_cmds(l, cs.drop_last(), revision), cs.last(), revision)
    }
}

/// Opens seen for a key, zero when untracked.
pub open spec fn opens_of(l: ResourceLedgerView, k: Seq<char>) -> int {
    if l.resources.contains_key(k) { l.resources[k].open_count as int } else { 0 }
}

/// Closes seen for a key, zero when untracked.
pub open spec fn closes_of(l: ResourceLedgerView, k: Seq<char>) -> int {
    if l.resources.contains_key(k) { l.resources[k].close_count as int } else { 0 }
}

/// Replaces seen for a key, zero when untracked.
pub open spec fn replaces_of(l: ResourceLedgerView, k: Seq<char>) -> int {
    if l.resources.contains_key(k) { l.resources[k].replace_count as int } else { 0 }
}

/// The generation of a key, zero when untracked.
pub open spec fn generation_of(l: ResourceLedgerView, k: Seq<char>) -> int {
    if l.resources.contains_key(k) { l.resources[k].generation as int } else { 0 }
}

/// Every counter of every key can take `n` more commands.
pub open spec fn has_room(l: ResourceLedgerView, n: int) -> bool {
    forall|k: Seq<char>|
        {
            &&& opens_of(l, k) + n <= usize::MAX
            &&& closes_of(l, k) + n <= usize::MAX
            &&& replaces_of(l, k) + n <= usize::MAX
            &&& generation_of(l, k) + n <= u64::MAX
        }
}

/// No counter of any key grew by more than `n` from `a` to `b`.
pub open spec fn grew_at_most(a: ResourceLedgerView, b: ResourceLedgerView, n: int) -> bool {
    forall|k: Seq<char>|
        {
            &&& opens_of(b, k) <= opens_of(a, k) + n
            &&& closes_of(b, k) <= closes_of(a, k) + n
            &&& replaces_of(b, k) <= replaces_of(a, k) + n
            &&& generation_of(b, k) <= generation_of(a, k) + n
        }
}

/// Every tracked resource has an owner.
pub open spec fn owned(l: ResourceLedgerView) -> bool {
    forall|k: Seq<char>| l.resources.contains_key(k) ==> !l.resources[k].owners.is_empty()
}

/// A command grows each counter by at most one.
pub proof fn lemma_cmd_grows(l: ResourceLedgerView, c: ResourceCommandView, revision: u64)
    requires
        has_room(l, 1),
    ensures
        grew_at_most(l, apply_cmd(l, c, revision), 1),
{
    let r = apply_cmd(l, c, revision);
    assert forall|k: Seq<char>|
        {
            &&& opens_of(r, k) <= opens_of(l, k) + 1
            &&& closes_of(r, k) <= closes_of(l, k) + 1
            &&& replaces_of(r, k) <= replaces_of(l, k) + 1
            &&& generation_of(r, k) <= generation_of(l, k) + 1
        } by {
        assert(opens_of(l, k) + 1 <= usize::MAX);
        assert(closes_of(l, k) + 1 <= usize::MAX);
        assert(replaces_of(l, k) + 1 <= usize::MAX);
        assert(generation_of(l, k) + 1 <= u64::MAX);
    }
}

/// Every tracked resource keeps an owner under any command: an open or a
/// replace adds one, and a close that leaves none drops the resource.
pub proof fn law_commands_keep_resources_owned(l: ResourceLedgerView, c: ResourceCommandView, revision: u64)
    requires
        owned(l),
    ensures
        owned(apply_cmd(l, c, revision)),
{
    let r = apply_cmd(l, c, revision);
    assert forall|k: Seq<char>| r.resources.contains_key(k) implies !r.resources[k].owners.is_empty() by {
        if k == c.key {
            match c.kind {
                ResourceCommandKind::Open => {
                    assert(r.resources[k].owners.contains(c.scope));
                },
                ResourceCommandKind::Replace => {
                    assert(r.resources[k].owners.contains(c.scope));
                },
                _ => {},
            }
        }
    }
}

/// A scope that opens a resource nobody held and then closes it leaves
/// the resource untracked, with no duplicate close recorded.
pub proof fn law_open_then_close_releases(l: ResourceLedgerView, key: Seq<char>, scope: u64, r1: u64, r2: u64)
    requires
        !l.resources.contains_key(key),
        !l.duplicate_closes.contains(key),
    ensures
        !apply_cmd(
            apply_cmd(l, ResourceCommandView { kind: ResourceCommandKind::Open, key, scope }, r1),
            ResourceCommandView { kind: ResourceCommandKind::Close, key, scope },
            r2,
        ).resources.contains_key(key),
        !apply_cmd(
            apply_cmd(l, ResourceCommandView { kind: ResourceCommandKind::Open, key, scope }, r1),
            ResourceCommandView { kind: ResourceCommandKind::Close, key, scope },
            r2,
        ).duplicate_closes.contains(key),
{
    let l1 = apply_cmd(l, ResourceCommandView { kind: ResourceCommandKind::Open, key, scope }, r1);
    assert(l1.resources[key].owners =~= set![scope]);
    assert(l1.resources[key].owners.remove(scope) =~= Set::<u64>::empty());
}

/// A resource two scopes opened stays open, owned by the other scope,
/// when one of them closes it, with both opens, the close and three
/// commands counted; the other scope's close then releases it, and a
/// second close by that scope is recorded as a duplicate.
pub proof fn law_shared_resource_survives_one_close(
    l: ResourceLedgerView,
    key: Seq<char>,
    a: u64,
    b: u64,
    r1: u64,
    r2: u64,
    r3: u64,
    r4: u64,
    r5: u64,
)
    requires
        !l.resources.contains_key(key),
        a != b,
    ensures
        ({
            let open_a = ResourceCommandView { kind: ResourceCommandKind::Open, key, scope: a };
            let open_b = ResourceCommandView { kind: ResourceCommandKind::Open, key, scope: b };
            let close_a = ResourceCommandView { kind: ResourceCommandKind::Close, key, scope: a };
            let close_b = ResourceCommandView { kind: ResourceCommandKind::Close, key, scope: b };
            let l3 = apply_cmd(apply_cmd(apply_cmd(l, open_a, r1), open_b, r2), close_a, r3);
            let l4 = apply_cmd(l3, close_b, r4);
            let l5 = apply_cmd(l4, close_b, r5);
            &&& l3.resources.contains_key(key)
            &&& l3.resources[key] == (ResourceSnapshotView {
                owners: set![b],
                open_count: 2,
                close_count: 1,
                replace_count: 0,
                command_revision: r3,
                generation: 3,
            })
            &&& l3.duplicate_closes == l.duplicate_closes
            &&& !l4.resources.contains_key(key)
            &&& l4.duplicate_closes == l.duplicate_closes
            &&& l5.duplicate_closes == l.duplicate_closes.insert(key)
        }),
{
    let open_a = ResourceCommandView { kind: ResourceCommandKind::Open, key, scope: a };
    let open_b = ResourceCommandView { kind: ResourceCommandKind::Open, key, scope: b };
    let close_a = ResourceCommandView { kind: ResourceCommandKind::Close, key, scope: a };
    let close_b = ResourceCommandView { kind: ResourceCommandKind::Close, key, scope: b };
    let l1 = apply_cmd(l, open_a, r1);
    let l2 = apply_cmd(l1, open_b, r2);
    assert(l1.resources[key].owners =~= set![a]);
    assert(l2.resources[key].owners =~= set![a, b]);
    assert(l2.resources[key].owners.remove(a) =~= set![b]);
    assert(set![b].contains(b));
    let l3 = apply_cmd(l2, close_a, r3);
    assert(l3.resources[key].owners.remove(b) =~= Set::<u64>::empty());
}

/// A plan of one command applies that command.
proof fn lemma_one_cmd(l: ResourceLedgerView, c: ResourceCommandView, revision: u64)
    ensures
        apply_cmds(l, seq![c], revision) == apply_cmd(l, c, revision),
{
    let s = seq![c];
    assert(s.drop_last() =~= Seq::<ResourceCommandView>::empty());
    assert(s.last() == c);
    assert(apply_cmds(l, s.drop_last(), revision) == l);
}

/// The ledger lifecycle through committed plans of one command each: two
/// scopes open a resource nobody held and one of them closes it, which
/// leaves the other as its only owner with two opens, one close and three
/// commands counted, at the close's revision, and no duplicate close; the
/// other's close then releases it; a further close by that scope is a
/// duplicate close.
pub proof fn law_ledger_lifecycle(
    l: ResourceLedgerView,
    key: Seq<char>,
    a: u64,
    b: u64,
    r1: u64,
    r2: u64,
    r3: u64,
    r4: u64,
    r5: u64,
)
    requires
        !l.resources.contains_key(key),
        l.duplicate_closes == Set::<Seq<char>>::empty(),
        a != b,
    ensures
        ({
            let open_a = ResourceCommandView { kind: ResourceCommandKind::Open, key, scope: a };
            let open_b = ResourceCommandView { kind: ResourceCommandKind::Open, key, scope: b };
            let close_a = ResourceCommandView { kind: ResourceCommandKind::Close, key, scope: a };
            let close_b = ResourceCommandView { kind: ResourceCommandKind::Close, key, scope: b };
            let l3 = apply_cmds(apply_cmds(apply_cmds(l, seq![open_a], r1), seq![open_b], r2), seq![close_a], r3);
            let l4 = apply_cmds(l3, seq![close_b], r4);
            let l5 = apply_cmds(l4, seq![close_b], r5);
            &&& l3.resources.contains_key(key)
            &&& l3.resources[key] == (ResourceSnapshotView {
                owners: set![b],
                open_count: 2,
                close_count: 1,
                replace_count: 0,
                command_revision: r3,
                generation: 3,
            })
            &&& l3.duplicate_closes == Set::<Seq<char>>::empty()
            &&& !l4.resources.contains_key(key)
            &&& l4.duplicate_closes == Set::<Seq<char>>::empty()
            &&& l5.duplicate_closes == set![key]
        }),
{
    let open_a = ResourceCommandView { kind: ResourceCommandKind::Open, key, scope: a };
    let open_b = ResourceCommandView { kind: ResourceCommandKind::Open, key, scope: b };
    let close_a = ResourceCommandView { kind: ResourceCommandKind::Close, key, scope: a };
    let close_b = ResourceCommandView { kind: ResourceCommandKind::Close, key, scope: b };
    let l1 = apply_cmds(l, seq![open_a], r1);
    lemma_one_cmd(l, open_a, r1);
    let l2 = apply_cmds(l1, seq![open_b], r2);
    lemma_one_cmd(l1, open_b, r2);
    let l3 = apply_cmds(l2, seq![close_a], r3);
    lemma_one_cmd(l2, close_a, r3);
    let l4 = apply_cmds(l3, seq![close_b], r4);
    lemma_one_cmd(l3, close_b, r4);
    lemma_one_cmd(l4, close_b, r5);
    law_shared_resource_survives_one_close(l, key, a, b, r1, r2, r3, r4, r5);
    assert(l.duplicate_closes.insert(key) =~= set![key]);
}

/// How a status report is classified: late when the resource is not
/// tracked or the scope no longer owns it, stale or future when it targets
/// an older or newer command revision, a duplicate when already accepted,
/// and current otherwise.
pub open spec fn classify_spec(l: ResourceLedgerView, s: HostStatusEventView) -> HostStatusClass {
    if !l.resources.contains_key(s.key) {
        HostStatusClass::Late
    } else if !l.resources[s.key].owners.contains(s.scope) {
        HostStatusClass::Late
    } else if s.command_revision < l.resources[s.key].command_revision {
        HostStatusClass::Stale
    } else if s.command_revision > l.resources[s.key].command_revision {
        HostStatusClass::Future
    } else if l.accepted.contains(s.id()) {
        HostStatusClass::Duplicate
    } else {
        HostStatusClass::Current
    }
}

/// For a report on a resource its scope owns, the revisions decide first:
/// a report for an older command than the resource's last one is stale
/// and one for a newer command is from the future, whichever reports were
/// accepted before; only a report for the resource's last command can be a
/// duplicate, and then only when it was accepted before; and, for a
/// report whose revision differs, the accepted reports do not matter.
pub proof fn law_revisions_decide_before_duplicates(
    l: ResourceLedgerView,
    s: HostStatusEventView,
    accepted: Set<StatusId>,
)
    requires
        l.resources.contains_key(s.key),
        l.resources[s.key].owners.contains(s.scope),
    ensures
        s.command_revision < l.resources[s.key].command_revision ==> classify_spec(l, s) == HostStatusClass::Stale,
        s.command_revision > l.resources[s.key].command_revision ==> classify_spec(l, s) == HostStatusClass::Future,
        classify_spec(l, s) == HostStatusClass::Duplicate ==> s.command_revision == l.resources[s.key].command_revision
            && l.accepted.contains(s.id()),
        s.command_revision != l.resources[s.key].command_revision ==> classify_spec(l, s) == classify_spec(
            ResourceLedgerView { accepted, ..l },
            s,
        ),
{
}

// ---------------------------------------------------------------------
// The ledger
// ---------------------------------------------------------------------
fn fresh(revision: u64) -> (r: ResourceSnapshot)
    ensures
        r.deep_view() == fresh_snapshot(revision),
{
    ResourceSnapshot {
        owners: ScopeSet::new(),
        open_count: 0,
        close_count: 0,
        replace_count: 0,
        command_revision: revision,
        generation: 0,
    }
}

fn same_status(a: &HostStatusEvent, b: &HostStatusEvent) -> (r: bool)
    ensures
        r == (a.deep_view().id() == b.deep_view().id()),
{
    a.scope == b.scope && a.command_revision == b.command_revision && a.status_revision == b.status_revision
        && str_eq(a.key.as_str(), b.key.as_str())
}

impl ResourceLedger {
    /// An empty ledger.
    pub fn new() -> (r: Self)
        ensures
            r@.resources == Map::<Seq<char>, ResourceSnapshotView>::empty(),
            r@.duplicate_closes == Set::<Seq<char>>::empty(),
            r@.forbidden == Set::<Seq<char>>::empty(),
            r@.forbidden_opened == Set::<Seq<char>>::empty(),
            r@.accepted == Set::<StatusId>::empty(),
            r@.status_records == Seq::<HostStatusRecordView>::empty(),
            r@.command_trace == Seq::<ResourceCommandView>::empty(),
            owned(r@),
    {
        let r = ResourceLedger {
            resources: StrMap::new(),
            duplicate_closes: StrSet::new(),
            forbidden: StrSet::new(),
            forbidden_opened: StrSet::new(),
            accepted_status: Vec::new(),
            status_records: Vec::new(),
            command_trace: Vec::new(),
        };
        assert(r@.accepted =~= Set::<StatusId>::empty());
        assert(r@.status_records =~= Seq::<HostStatusRecordView>::empty());
        assert(r@.command_trace =~= Seq::<ResourceCommandView>::empty());
        r
    }

    /// Marks a key that must not be opened unless the application says so.
    pub fn mark_forbidden_unless_explicit(&mut self, key: String)
        ensures
            final(self)@ == (ResourceLedgerView { forbidden: old(self)@.forbidden.insert(key@), ..old(self)@ }),
    {
        self.forbidden.insert(key);
    }

    /// The record of a tracked resource.
    pub fn snapshot(&self, key: &str) -> (r: Option<&ResourceSnapshot>)
        ensures
            r is Some == self@.resources.contains_key(key@),
            r matches Some(s) ==> s.deep_view() == self@.resources[key@],
    {
        self.resources.get(key)
    }

    /// Every classified status report, in delivery order.
    pub fn status_records(&self) -> (r: &[HostStatusRecord])
        ensures
            r.deep_view() == self@.status_records,
    {
        self.status_records.as_slice()
    }

    /// Every applied command, in delivery order.
    pub fn command_trace(&self) -> (r: &[ResourceCommand])
        ensures
            r.deep_view() == self@.command_trace,
    {
        self.command_trace.as_slice()
    }

    fn apply_command(&mut self, command: &ResourceCommand, revision: u64)
        requires
            has_room(old(self)@, 1),
        ensures
            final(self)@ == apply_cmd(old(self)@, command.deep_view(), revision),
    {
        let ghost l = self@;
        let ghost c = command.deep_view();
        assert(opens_of(l, c.key) + 1 <= usize::MAX);
        assert(closes_of(l, c.key) + 1 <= usize::MAX);
        assert(replaces_of(l, c.key) + 1 <= usize::MAX);
        assert(generation_of(l, c.key) + 1 <= u64::MAX);
        match command.kind {
            ResourceCommandKind::Open => {
                if self.forbidden.contains(command.key.as_str()) {
                    self.forbidden_opened.insert(command.key.dup());
                }
                let mut snap = match self.resources.get(command.key.as_str()) {
                    Some(s) => s.dup(),
                    None => fresh(revision),
                };
                snap.owners.insert(command.scope);
                snap.open_count = snap.open_count + 1;
                snap.command_revision = revision;
                snap.generation = snap.generation + 1;
                self.resources.insert(command.key.dup(), snap);
            },
            ResourceCommandKind::Replace => {
                let mut snap = match self.resources.get(command.key.as_str()) {
                    Some(s) => s.dup(),
                    None => fresh(revision),
                };
                snap.owners.insert(command.scope);
                snap.replace_count = snap.replace_count + 1;
                snap.command_revision = revision;
                snap.generation = snap.generation + 1;
                self.resources.insert(command.key.dup(), snap);
            },
            ResourceCommandKind::Close => {
                let found = match self.resources.get(command.key.as_str()) {
                    Some(s) => Some(s.dup()),
                    None => None,
                };
                match found {
                    None => {
                        self.duplicate_closes.insert(command.key.dup());
                    },
                    Some(mut snap) => {
                        if !snap.owners.remove(command.scope) {
                            self.duplicate_closes.insert(command.key.dup());
                        }
                        snap.close_count = snap.close_count + 1;
                        snap.command_revision = revision;
                        snap.generation = snap.generation + 1;
                        if snap.owners.is_empty() {
                            self.resources.remove(command.key.as_str());
                        } else {
                            self.resources.insert(command.key.dup(), snap);
                        }
                    },
                }
            },
            ResourceCommandKind::Refresh => {
                let found = match self.resources.get(command.key.as_str()) {
                    Some(s) => Some(s.dup()),
                    None => None,
                };
                match found {
                    None => {},
                    Some(mut snap) => {
                        snap.command_revision = revision;
                        snap.generation = snap.generation + 1;
                        self.resources.insert(command.key.dup(), snap);
                    },
                }
            },
        }
        assert(self@.resources =~= apply_cmd(l, c, revision).resources);
    }

    /// Applies the resource plan of a committed transaction, command by
    /// command, and records its commands.
    pub fn apply_result<O>(&mut self, result: &TransactionResult<O>)
        requires
            has_room(old(self)@, result.resource_plan@.len() as int),
        ensures
            final(self)@ == (ResourceLedgerView {
                command_trace: old(self)@.command_trace + result.resource_plan.deep_view(),
                ..apply_cmds(old(self)@, result.resource_plan.deep_view(), result.revision)
            }),
            grew_at_most(old(self)@, final(self)@, result.resource_plan@.len() as int),
            owned(old(self)@) ==> owned(final(self)@),
    {
        let ghost l0 = self@;
        let ghost cs = result.resource_plan.deep_view();
        let n = result.resource_plan.len();
        let mut i: usize = 0;
        assert(cs.take(0) =~= Seq::<ResourceCommandView>::empty());
        while i < n
            invariant
                n == result.resource_plan@.len(),
                cs == result.resource_plan.deep_view(),
                i <= n,
                has_room(l0, n as int),
                self@ == (ResourceLedgerView {
                    command_trace: l0.command_trace + cs.take(i as int),
                    ..apply_cmds(l0, cs.take(i as int), result.revision)
                }),
                grew_at_most(l0, self@, i as int),
                owned(l0) ==> owned(self@),
            decreases n - i,
        {
            let ghost before = self@;
            proof {
                assert forall|k: Seq<char>|
                    {
                        &&& opens_of(before, k) + 1 <= usize::MAX
                        &&& closes_of(before, k) + 1 <= usize::MAX
                        &&& replaces_of(before, k) + 1 <= usize::MAX
                        &&& generation_of(before, k) + 1 <= u64::MAX
                    } by {
                    assert(opens_of(l0, k) + n <= usize::MAX);
                    assert(closes_of(l0, k) + n <= usize::MAX);
                    assert(replaces_of(l0, k) + n <= usize::MAX);
                    assert(generation_of(l0, k) + n <= u64::MAX);
                }
            }
            self.apply_command(&result.resource_plan[i], result.revision);
            let ghost after_cmd = self@;
            self.command_trace.push(result.resource_plan[i].dup());
            proof {
                lemma_cmd_grows(before, cs[i as int], result.revision);
                if owned(l0) {
                    law_commands_keep_resources_owned(before, cs[i as int], result.revision);
                }
                assert(cs.take(i + 1).drop_last() =~= cs.take(i as int));
                assert(l0.command_trace + cs.take(i + 1) =~= (l0.command_trace + cs.take(i as int)).push(cs[i as int]));
                assert(self@.command_trace =~= l0.command_trace + cs.take(i + 1));
                assert(self@.resources == apply_cmds(l0, cs.take(i + 1), result.revision).resources);
            }
            i = i + 1;
        }
        assert(cs.take(n as int) =~= cs);
    }

    fn accepted(&self, status: &HostStatusEvent) -> (r: bool)
        ensures
            r == self@.accepted.contains(status.deep_view().id()),
    {
        let ghost s = self.accepted_status.deep_view();
        let mut i: usize = 0;
        while i < self.accepted_status.len()
            invariant
                i <= s.len(),
                s == self.accepted_status.deep_view(),
                forall|j: int| 0 <= j < i ==> s[j].id() != status.deep_view().id(),
            decreases s.len() - i,
        {
            if same_status(&self.accepted_status[i], status) {
                assert(s[i as int].id() == status.deep_view().id());
                return true;
            }
            i = i + 1;
        }
        false
    }

    fn classify_status_ref(&self, status: &HostStatusEvent) -> (r: HostStatusClass)
        ensures
            r == classify_spec(self@, status.deep_view()),
    {
        match self.resources.get(status.key.as_str()) {
            None => HostStatusClass::Late,
            Some(snap) => {
                if !snap.owners.contains(status.scope) {
                    HostStatusClass::Late
                } else if status.command_revision < snap.command_revision {
                    HostStatusClass::Stale
                } else if status.command_revision > snap.command_revision {
                    HostStatusClass::Future
                } else if self.accepted(status) {
                    HostStatusClass::Duplicate
                } else {
                    HostStatusClass::Current
                }
            },
        }
    }

    /// Classifies a host status report against the ledger, records it,
    /// and, when it is current, accepts it so that a repeat counts as a
    /// duplicate.
    pub fn classify_status(&mut self, status: HostStatusEvent) -> (class: HostStatusClass)
        ensures
            class == classify_spec(old(self)@, status.deep_view()),
            final(self)@ == (ResourceLedgerView {
                accepted: if class == HostStatusClass::Current {
                    old(self)@.accepted.insert(status.deep_view().id())
                } else {
                    old(self)@.accepted
                },
                status_records: old(self)@.status_records.push(
                    HostStatusRecordView { status: status.deep_view(), class },
                ),
                ..old(self)@
            }),
    {
        let class = self.classify_status_ref(&status);
        let ghost acc = self.accepted_status.deep_view();
        if class == HostStatusClass::Current {
            self.accepted_status.push(status.dup());
            proof {
                assert(self.accepted_status.deep_view() =~= acc.push(status.deep_view()));
                assert(status_ids(acc.push(status.deep_view())) =~= status_ids(acc).insert(status.deep_view().id())) by {
                    assert forall|x: StatusId| status_ids(acc.push(status.deep_view())).contains(x) implies status_ids(acc).insert(status.deep_view().id()).contains(x) by {
                        let i = choose|i: int| 0 <= i < acc.len() + 1 && acc.push(status.deep_view())[i].id() == x;
                        if i < acc.len() {
                            assert(acc[i].id() == x);
                        }
                    }
                    assert forall|x: StatusId| status_ids(acc).insert(status.deep_view().id()).contains(x) implies status_ids(acc.push(status.deep_view())).contains(x) by {
                        if x == status.deep_view().id() {
                            assert(acc.push(status.deep_view())[acc.len() as int].id() == x);
                        } else {
                            let i = choose|i: int| 0 <= i < acc.len() && acc[i].id() == x;
                            assert(acc.push(status.deep_view())[i].id() == x);
                        }
                    }
                }
            }
        }
        let ghost recs = self.status_records.deep_view();
        self.status_records.push(HostStatusRecord { status, class });
        assert(self.status_records.deep_view() =~= recs.push(self.status_records@.last().deep_view()));
        class
    }

    /// Checks that the applied commands are exactly `expected`.
    pub fn assert_command_order(&self, expected: &[ResourceCommand]) -> (r: Result<(), ResourceLedgerError>)
        ensures
            r is Ok <==> self@.command_trace == expected.deep_view(),
            r matches Err(e) ==> (e matches ResourceLedgerError::CommandOrderMismatch { expected: x, actual: y }
                && x.deep_view() == expected.deep_view() && y.deep_view() == self@.command_trace),
    {
        let same = crate::gate::plan::same_commands(self.command_trace.as_slice(), expected);
        if same {
            Ok(())
        } else {
            let x = crate::gate::plan::copy_commands(expected);
            Err(ResourceLedgerError::CommandOrderMismatch { expected: x, actual: self.command_trace.dup() })
        }
    }

    /// Checks that every tracked resource has an owner; otherwise names
    /// the first orphan in key order.
    pub fn assert_all_resources_have_owner(&self) -> (r: Result<(), ResourceLedgerError>)
        ensures
            r is Ok <==> owned(self@),
            r matches Err(e) ==> (e matches ResourceLedgerError::Orphan(k) && self@.resources.contains_key(k@)
                && self@.resources[k@].owners.is_empty() && forall|j: Seq<char>|
                #![trigger self@.resources.contains_key(j)]
                self@.resources.contains_key(j) && seq_lt(j, k@) ==> !self@.resources[j].owners.is_empty()),
    {
        self.resources.lemma_keys();
        let ghost ks = self.resources.keys();
        let mut i: usize = 0;
        while i < self.resources.len()
            invariant
                i <= ks.len(),
                ks == self.resources.keys(),
                ks.len() == self.resources.vals().len(),
                crate::strmap::sorted(ks),
                self.resources@.dom() == ks.to_set(),
                forall|j: int| 0 <= j < ks.len() ==> #[trigger] self.resources@[ks[j]] == self.resources.vals()[j],
                forall|j: int| 0 <= j < i ==> !self.resources@[#[trigger] ks[j]].owners.is_empty(),
            decreases ks.len() - i,
        {
            let snap = self.resources.val_at(i);
            if snap.owners.is_empty() {
                let k = self.resources.key_at(i).dup();
                proof {
                    assert(ks.contains(ks[i as int]));
                    assert(ks.to_set().contains(ks[i as int]));
                    assert(self@.resources[ks[i as int]].owners =~= Set::<u64>::empty());
                    assert(!owned(self@));
                    assert forall|j: Seq<char>|
                        #![trigger self@.resources.contains_key(j)]
                        self@.resources.contains_key(j) && seq_lt(j, k@) implies !self@.resources[j].owners.is_empty() by {
                        assert(ks.to_set().contains(j));
                        let m = choose|m: int| 0 <= m < ks.len() && ks[m] == j;
                        if m >= i {
                            if m > i {
                                assert(seq_lt(ks[i as int], ks[m]));
                                crate::text::lemma_lt_total(ks[i as int], ks[m]);
                            } else {
                                crate::text::lemma_lt_irreflexive(j);
                            }
                        }
                    }
                }
                return Err(ResourceLedgerError::Orphan(k));
            }
            i = i + 1;
        }
        proof {
            assert forall|k: Seq<char>| self@.resources.contains_key(k) implies !self@.resources[k].owners.is_empty() by {
                assert(ks.to_set().contains(k));
                let m = choose|m: int| 0 <= m < ks.len() && ks[m] == k;
            }
        }
        Ok(())
    }

    /// Checks that no close arrived without an owner; otherwise names the
    /// first such key.
    pub fn assert_no_duplicate_close(&self) -> (r: Result<(), ResourceLedgerError>)
        ensures
            r is Ok <==> self@.duplicate_closes == Set::<Seq<char>>::empty(),
            r matches Err(e) ==> (e matches ResourceLedgerError::DuplicateClose(k) && k@ == least(self@.duplicate_closes)),
    {
        self.duplicate_closes.lemma_elems();
        if self.duplicate_closes.is_empty() {
            Ok(())
        } else {
            proof {
                if self.duplicate_closes.elems().len() == 0 {
                    assert(self.duplicate_closes@ =~= Set::<Seq<char>>::empty());
                }
                lemma_least(self.duplicate_closes.elems());
            }
            Err(ResourceLedgerError::DuplicateClose(self.duplicate_closes.elem_at(0).dup()))
        }
    }

    /// Checks that no forbidden key was opened; otherwise names the first.
    pub fn assert_no_forbidden_opened(&self) -> (r: Result<(), ResourceLedgerError>)
        ensures
            r is Ok <==> self@.forbidden_opened == Set::<Seq<char>>::empty(),
            r matches Err(e) ==> (e matches ResourceLedgerError::ForbiddenOpen(k) && k@ == least(self@.forbidden_opened)),
    {
        self.forbidden_opened.lemma_elems();
        if self.forbidden_opened.is_empty() {
            Ok(())
        } else {
            proof {
                if self.forbidden_opened.elems().len() == 0 {
                    assert(self.forbidden_opened@ =~= Set::<Seq<char>>::empty());
                }
                lemma_least(self.forbidden_opened.elems());
            }
            Err(ResourceLedgerError::ForbiddenOpen(self.forbidden_opened.elem_at(0).dup()))
        }
    }

    /// Checks that the resource is no longer tracked.
    pub fn assert_resource_not_open(&self, key: &str) -> (r: Result<(), ResourceLedgerError>)
        ensures
            r is Ok <==> !self@.resources.contains_key(key@),
            r matches Err(e) ==> (e matches ResourceLedgerError::StillOpen(k) && k@ == key@),
    {
        if self.resources.contains_key(key) {
            Err(ResourceLedgerError::StillOpen(crate::text::owned(key)))
        } else {
            Ok(())
        }
    }

    /// Checks that the resource is owned by exactly the expected scopes
    /// (an untracked resource by none).
    pub fn assert_resource_shared_by(&self, key: &str, expected: ScopeSet) -> (r: Result<(), ResourceLedgerError>)
        ensures
            r is Ok <==> expected@ == (if self@.resources.contains_key(key@) {
                self@.resources[key@].owners
            } else {
                Set::<u64>::empty()
            }),
            r matches Err(e) ==> (e matches ResourceLedgerError::OwnerMismatch { key: k, expected: x, actual: y }
                && k@ == key@ && x@ == expected@ && y@ == (if self@.resources.contains_key(key@) {
                self@.resources[key@].owners
            } else {
                Set::<u64>::empty()
            })),
    {
        let actual = match self.resources.get(key) {
            Some(s) => s.owners.dup(),
            None => ScopeSet::new(),
        };
        if actual.same(&expected) {
            Ok(())
        } else {
            Err(ResourceLedgerError::OwnerMismatch { key: crate::text::owned(key), expected, actual })
        }
    }
}

} // verus!
