//! Resource plans from demand diffs, and the host-side ledgers that
//! resource commands and output frames are applied to.
use vstd::prelude::*;
use crate::dup::Dup;
use crate::observatory::compute::{cause, cause_spec};
use crate::observatory::types::{
    AuditCauseView, OutputFrame, OutputFrameView, OutputLedger, OutputLedgerView, ResourceCommand,
    ResourceCommandView, ResourceLedgerEntry, ResourceLedgerEntryView, Revision,
};
use crate::strmap::{sort_seq, sort_strings, sorted, strings_contain, strings_without, views, without, StrMap, StrSet};
use crate::text::{
    append, chars_of, find, find_chars, lemma_find_from, lemma_find_shift, owned, starts_with,
    str_eq, str_starts_with, string_of_range,
};

verus! {

// ---------------------------------------------------------------------
// Commands
// ---------------------------------------------------------------------
/// Analysis jobs are cancelled; every other resource is closed.
pub open spec fn close_op_spec(key: Seq<char>) -> Seq<char> {
    if starts_with(key, "AnalysisJob("@) {
        "Cancel"@
    } else {
        "Close"@
    }
}

/// What lies between the first `(` of a key and the first `)` after it.
pub open spec fn inner_of(key: Seq<char>) -> Option<Seq<char>> {
    match find(key, "("@) {
        Some(a) => {
            let rest = key.subrange(a + 1, key.len() as int);
            match find(rest, ")"@) {
                Some(b) => Some(rest.subrange(0, b)),
                None => None,
            }
        },
        None => None,
    }
}

/// The scope a resource command is attributed to: the part of the key's
/// parenthesised argument before `@rev`, or `workspace` when there is no
/// such argument or it holds no `@rev`; workspace indexes belong to a
/// workspace scope, everything else to a file scope.
pub open spec fn scope_for_spec(key: Seq<char>) -> Seq<char> {
    let base = match inner_of(key) {
        Some(s) => s,
        None => "workspace"@,
    };
    let path = match find(base, "@rev"@) {
        Some(c) => base.subrange(0, c),
        None => "workspace"@,
    };
    if starts_with(key, "WorkspaceIndex("@) {
        "WorkspaceScope("@ + path + ")"@
    } else {
        "FileScope("@ + path + ")"@
    }
}

/// The command built by `command`.
pub open spec fn command_spec(op: Seq<char>, key: Seq<char>, revision: Revision, label: Seq<char>) -> ResourceCommandView {
    ResourceCommandView {
        op,
        key,
        old_key: None,
        new_key: None,
        scope: scope_for_spec(key),
        command_revision: revision,
        policy: None,
        cause: cause_spec(
            "files/config/hostStatuses"@,
            label,
            "resourcePlan"@,
            "resource demand reconciled against desired graph"@,
        ),
    }
}

/// How a resource leaves demand: `Cancel` for analysis jobs, else `Close`.
pub fn close_op(key: &str) -> (r: &'static str)
    ensures
        r@ == close_op_spec(key@),
{
    if str_starts_with(key, "AnalysisJob(") {
        "Cancel"
    } else {
        "Close"
    }
}

pub(crate) fn inner(key: &str) -> (r: Option<String>)
    ensures
        r.deep_view() == inner_of(key@),
{
    let kc = chars_of(key);
    let open = chars_of("(");
    let close = chars_of(")");
    proof {
        reveal_strlit("(");
        reveal_strlit(")");
    }
    let kl = kc.len();
    match find_chars(kc.as_slice(), open.as_slice()) {
        Some(a) => {
            proof {
                lemma_find_from(key@, "("@, 0);
            }
            assert(a + 1 <= kl);
            let found = crate::text::find_chars_from(kc.as_slice(), close.as_slice(), a + 1);
            proof {
                lemma_find_shift(key@, ")"@, a + 1, 0);
                lemma_find_from(key@, ")"@, a + 1);
            }
            match found {
                Some(j) => {
                    let s = string_of_range(kc.as_slice(), a + 1, j);
                    assert(s@ =~= key@.subrange(a + 1, key@.len() as int).subrange(
                        0,
                        j - (a + 1),
                    ));
                    Some(s)
                },
                None => None,
            }
        },
        None => None,
    }
}

/// The scope a resource command is attributed to.
pub fn scope_for(key: &str) -> (r: String)
    ensures
        r@ == scope_for_spec(key@),
{
    let base = match inner(key) {
        Some(s) => s,
        None => owned("workspace"),
    };
    let bc = chars_of(base.as_str());
    let rev = chars_of("@rev");
    let path = match find_chars(bc.as_slice(), rev.as_slice()) {
        Some(c) => {
            proof {
                lemma_find_from(base@, "@rev"@, 0);
            }
            string_of_range(bc.as_slice(), 0, c)
        },
        None => owned("workspace"),
    };
    let mut s = if str_starts_with(key, "WorkspaceIndex(") {
        owned("WorkspaceScope(")
    } else {
        owned("FileScope(")
    };
    append(&mut s, path.as_str());
    append(&mut s, ")");
    s
}

/// A resource command of the given kind for a key.
pub fn command(op: &str, key: &str, revision: Revision, label: &str) -> (r: ResourceCommand)
    ensures
        r.deep_view() == command_spec(op@, key@, revision, label@),
{
    ResourceCommand {
        op: owned(op),
        key: owned(key),
        old_key: None,
        new_key: None,
        scope: scope_for(key),
        command_revision: revision,
        policy: None,
        cause: cause(
            "files/config/hostStatuses",
            label,
            "resourcePlan",
            "resource demand reconciled against desired graph",
        ),
    }
}

/// The keys of a sequence of commands.
pub open spec fn command_keys(c: Seq<ResourceCommandView>) -> Seq<Seq<char>> {
    c.map_values(|x: ResourceCommandView| x.key)
}

/// The plan `resource_commands` returns: one command per key that entered
/// or left demand, ordered by key; `Open` for keys that entered, and for
/// keys that left, `Cancel` for analysis jobs and `Close` otherwise.
pub open spec fn resource_plan_spec(
    before: Set<Seq<char>>,
    after: Set<Seq<char>>,
    revision: Revision,
    label: Seq<char>,
    r: Seq<ResourceCommandView>,
) -> bool {
    &&& sorted(command_keys(r))
    &&& command_keys(r).to_set() == after.difference(before).union(before.difference(after))
    &&& forall|i: int|
        0 <= i < r.len() ==> #[trigger] r[i] == command_spec(
            if after.contains(r[i].key) {
                "Open"@
            } else {
                close_op_spec(r[i].key)
            },
            r[i].key,
            revision,
            label,
        )
}

/// The resource plan that takes demand from `before` to `after`: close (or
/// cancel) what left, open what entered, in key order.
pub fn resource_commands(before: &[String], after: &[String], revision: Revision, label: &str) -> (r:
    Vec<ResourceCommand>)
    ensures
        resource_plan_spec(
            views(before@).to_set(),
            views(after@).to_set(),
            revision,
            label@,
            r.deep_view(),
        ),
{
    let bs = StrSet::from_strings(before);
    let as_ = StrSet::from_strings(after);
    let gone = bs.difference(&as_);
    let came = as_.difference(&bs);
    let ghost b = views(before@).to_set();
    let ghost a = views(after@).to_set();
    let mut r: Vec<ResourceCommand> = Vec::new();
    let mut i: usize = 0;
    let mut j: usize = 0;
    proof {
        crate::strmap::lemma_sorted_no_dup(views(gone@));
        crate::strmap::lemma_sorted_no_dup(views(came@));
    }
    while i < gone.len() || j < came.len()
        invariant
            i <= gone@.len(),
            j <= came@.len(),
            sorted(views(gone@)),
            sorted(views(came@)),
            views(gone@).to_set() == b.difference(a),
            views(came@).to_set() == a.difference(b),
            sorted(command_keys(r.deep_view())),
            command_keys(r.deep_view()).to_set() == views(gone@).take(i as int).to_set().union(
                views(came@).take(j as int).to_set(),
            ),
            forall|k: int| 0 <= k < r@.len() ==> {
                &&& i < gone@.len() ==> crate::text::seq_lt(
                    #[trigger] r.deep_view()[k].key,
                    views(gone@)[i as int],
                )
                &&& j < came@.len() ==> crate::text::seq_lt(
                    r.deep_view()[k].key,
                    views(came@)[j as int],
                )
            },
            forall|k: int|
                0 <= k < r@.len() ==> #[trigger] r.deep_view()[k] == command_spec(
                    if a.contains(r.deep_view()[k].key) {
                        "Open"@
                    } else {
                        close_op_spec(r.deep_view()[k].key)
                    },
                    r.deep_view()[k].key,
                    revision,
                    label@,
                ),
        decreases gone@.len() + came@.len() - i - j,
    {
        let ghost old_r = r.deep_view();
        let take_gone = if i < gone.len() && j < came.len() {
            crate::text::str_lt(gone[i].as_str(), came[j].as_str())
        } else {
            i < gone.len()
        };
        let key: &String = if take_gone {
            &gone[i]
        } else {
            &came[j]
        };
        proof {
            if take_gone {
                assert(views(gone@).to_set().contains(views(gone@)[i as int]));
                assert(!a.contains(key@));
            } else {
                assert(views(came@).to_set().contains(views(came@)[j as int]));
                assert(a.contains(key@));
            }
        }
        let op = if take_gone {
            close_op(key.as_str())
        } else {
            "Open"
        };
        let c = command(op, key.as_str(), revision, label);
        r.push(c);
        proof {
            let nr = r.deep_view();
            assert(nr =~= old_r.push(command_spec(op@, key@, revision, label@)));
            reveal_strlit("Open");
            let gv = views(gone@);
            let cv = views(came@);
            // the chosen key orders after every earlier one and before the rest
            if take_gone {
                if j < came@.len() {
                    crate::text::lemma_lt_total(gv[i as int], cv[j as int]);
                    assert(gv[i as int] != cv[j as int]) by {
                        assert(gv.to_set().contains(gv[i as int]));
                        assert(cv.to_set().contains(cv[j as int]));
                    }
                }
            }
            assert(command_keys(nr) =~= command_keys(old_r).push(key@));
            let ni = if take_gone { i + 1 } else { i as int };
            let nj = if take_gone { j as int } else { j + 1 };
            assert(gv.take(ni).to_set().union(cv.take(nj).to_set()) =~= gv.take(i as int).to_set().union(
                cv.take(j as int).to_set(),
            ).insert(key@)) by {
                if take_gone {
                    assert(gv.take(ni) =~= gv.take(i as int).push(key@));
                    gv.take(i as int).lemma_push_to_set_commute(key@);
                } else {
                    assert(cv.take(nj) =~= cv.take(j as int).push(key@));
                    cv.take(j as int).lemma_push_to_set_commute(key@);
                }
            }
            command_keys(old_r).lemma_push_to_set_commute(key@);
            assert forall|x: int, y: int| 0 <= x < y < command_keys(nr).len() implies crate::text::seq_lt(
                #[trigger] command_keys(nr)[x],
                #[trigger] command_keys(nr)[y],
            ) by {
                if y == command_keys(nr).len() - 1 {
                    assert(command_keys(nr)[x] == old_r[x].key);
                    if take_gone {
                    } else {
                    }
                } else {
                    assert(command_keys(nr)[x] == command_keys(old_r)[x]);
                    assert(command_keys(nr)[y] == command_keys(old_r)[y]);
                }
            }
            assert forall|k: int| 0 <= k < nr.len() implies {
                &&& ni < gv.len() ==> crate::text::seq_lt(#[trigger] nr[k].key, gv[ni])
                &&& nj < cv.len() ==> crate::text::seq_lt(nr[k].key, cv[nj])
            } by {
                if k < old_r.len() {
                    if ni < gv.len() {
                        if take_gone {
                            assert(crate::text::seq_lt(gv[i as int], gv[ni]));
                            crate::text::lemma_lt_transitive(nr[k].key, gv[i as int], gv[ni]);
                        }
                    }
                    if nj < cv.len() {
                        if !take_gone {
                            assert(crate::text::seq_lt(cv[j as int], cv[nj]));
                            crate::text::lemma_lt_transitive(nr[k].key, cv[j as int], cv[nj]);
                        }
                    }
                } else {
                    if take_gone {
                        if ni < gv.len() {
                            assert(crate::text::seq_lt(gv[i as int], gv[ni]));
                        }
                        if nj < cv.len() {
                            crate::text::lemma_lt_total(gv[i as int], cv[j as int]);
                        }
                    } else {
                        if nj < cv.len() {
                            assert(crate::text::seq_lt(cv[j as int], cv[nj]));
                        }
                        if ni < gv.len() {
                            crate::text::lemma_lt_total(gv[i as int], cv[j as int]);
                            assert(gv[i as int] != cv[j as int]) by {
                                assert(gv.to_set().contains(gv[i as int]));
                                assert(cv.to_set().contains(cv[j as int]));
                            }
                        }
                    }
                }
            }
        }
        if take_gone {
            i = i + 1;
        } else {
            j = j + 1;
        }
    }
    proof {
        assert(views(gone@).take(i as int) =~= views(gone@));
        assert(views(came@).take(j as int) =~= views(came@));
        assert(command_keys(r.deep_view()).to_set() =~= a.difference(b).union(b.difference(a)));
    }
    r
}

// ---------------------------------------------------------------------
// Resource ledger
// ---------------------------------------------------------------------
/// The ledger entry of a resource never commanded before.
pub open spec fn fresh_entry(key: Seq<char>) -> ResourceLedgerEntryView {
    ResourceLedgerEntryView {
        key,
        state: "closed"@,
        owners: Seq::empty(),
        open_count: 0,
        close_count: 0,
        cancel_count: 0,
        last_command_revision: 0,
        last_tx_id: 0,
        cause: Seq::empty(),
    }
}

/// The key a command is recorded under: its new key, else its old key,
/// else its key.
pub open spec fn effective_key(c: ResourceCommandView) -> Seq<char> {
    match c.new_key {
        Some(k) => k,
        None => match c.old_key {
            Some(k) => k,
            None => c.key,
        },
    }
}

/// An entry after one command: `Open` opens it and adds the scope as an
/// owner, `Close` and `Cancel` close or cancel it and drop the scope;
/// every command records its revision, transaction and reason, and the
/// owners end up sorted.
pub open spec fn apply_cmd_entry(e: ResourceLedgerEntryView, c: ResourceCommandView, tx: u32) -> ResourceLedgerEntryView {
    let e1 = if c.op == "Open"@ {
        ResourceLedgerEntryView {
            state: "open"@,
            open_count: (e.open_count + 1) as u32,
            owners: if e.owners.contains(c.scope) {
                e.owners
            } else {
                e.owners.push(c.scope)
            },
            ..e
        }
    } else if c.op == "Close"@ {
        ResourceLedgerEntryView {
            state: "closed"@,
            close_count: (e.close_count + 1) as u32,
            owners: without(e.owners, c.scope),
            ..e
        }
    } else if c.op == "Cancel"@ {
        ResourceLedgerEntryView {
            state: "cancelled"@,
            cancel_count: (e.cancel_count + 1) as u32,
            owners: without(e.owners, c.scope),
            ..e
        }
    } else {
        e
    };
    ResourceLedgerEntryView {
        last_command_revision: c.command_revision,
        last_tx_id: tx,
        cause: c.cause.reason,
        owners: sort_seq(e1.owners),
        ..e1
    }
}

/// A ledger after a sequence of commands, applied in order.
pub open spec fn apply_cmds(
    m: Map<Seq<char>, ResourceLedgerEntryView>,
    cs: Seq<ResourceCommandView>,
    tx: u32,
) -> Map<Seq<char>, ResourceLedgerEntryView>
    decreases cs.len(),
{
    if cs.len() == 0 {
        m
    } else {
        let m0 = apply_cmds(m, cs.drop_last(), tx);
        let c = cs.last();
        let k = effective_key(c);
        let e = if m0.contains_key(k) {
            m0[k]
        } else {
            fresh_entry(k)
        };
        m0.insert(k, apply_cmd_entry(e, c, tx))
    }
}

/// How many of the commands are recorded under `k`.
pub open spec fn key_uses(cs: Seq<ResourceCommandView>, k: Seq<char>) -> nat
    decreases cs.len(),
{
    if cs.len() == 0 {
        0
    } else {
        key_uses(cs.drop_last(), k) + if effective_key(cs.last()) == k {
            1nat
        } else {
            0nat
        }
    }
}

/// The entry under `k`, or the fresh one a first command creates.
pub open spec fn entry_or_fresh(m: Map<Seq<char>, ResourceLedgerEntryView>, k: Seq<char>) -> ResourceLedgerEntryView {
    if m.contains_key(k) {
        m[k]
    } else {
        fresh_entry(k)
    }
}

/// No command count overflows while the commands are applied: each count
/// of each entry can grow by the number of commands recorded under it.
pub open spec fn counts_have_room(m: Map<Seq<char>, ResourceLedgerEntryView>, cs: Seq<ResourceCommandView>) -> bool {
    forall|k: Seq<char>|
        #[trigger] key_uses(cs, k) > 0 ==> {
            let e = entry_or_fresh(m, k);
            &&& e.open_count + key_uses(cs, k) <= u32::MAX
            &&& e.close_count + key_uses(cs, k) <= u32::MAX
            &&& e.cancel_count + key_uses(cs, k) <= u32::MAX
        }
}

/// Counting from the front: the first command, then the rest.
pub proof fn lemma_key_uses_front(s: Seq<ResourceCommandView>, k: Seq<char>)
    requires
        s.len() > 0,
    ensures
        key_uses(s, k) == key_uses(s.drop_first(), k) + if effective_key(s[0]) == k {
            1nat
        } else {
            0nat
        },
    decreases s.len(),
{
    if s.len() == 1 {
        assert(s.drop_last() =~= Seq::<ResourceCommandView>::empty());
        assert(s.drop_first() =~= Seq::<ResourceCommandView>::empty());
    } else {
        lemma_key_uses_front(s.drop_last(), k);
        assert(s.drop_first().drop_last() =~= s.drop_last().drop_first());
        assert(s.drop_first().last() == s.last());
        assert(s.drop_last()[0] == s[0]);
    }
}

/// Commands recorded under distinct keys use each key at most once.
pub proof fn lemma_key_uses_distinct(cs: Seq<ResourceCommandView>, k: Seq<char>)
    requires
        forall|i: int, j: int|
            0 <= i < j < cs.len() ==> effective_key(#[trigger] cs[i]) != effective_key(#[trigger] cs[j]),
    ensures
        key_uses(cs, k) <= 1,
        key_uses(cs, k) == 1 ==> exists|i: int| 0 <= i < cs.len() && effective_key(#[trigger] cs[i]) == k,
    decreases cs.len(),
{
    if cs.len() > 0 {
        let rest = cs.drop_last();
        lemma_key_uses_distinct(rest, k);
        if effective_key(cs.last()) == k && key_uses(rest, k) == 1 {
            let i = choose|i: int| 0 <= i < rest.len() && effective_key(#[trigger] rest[i]) == k;
            assert(cs[i] == rest[i]);
            assert(effective_key(cs[i]) != effective_key(cs[cs.len() - 1]));
        }
        if key_uses(cs, k) == 1 {
            if effective_key(cs.last()) == k {
                assert(effective_key(cs[cs.len() - 1]) == k);
            } else {
                let i = choose|i: int| 0 <= i < rest.len() && effective_key(#[trigger] rest[i]) == k;
                assert(cs[i] == rest[i]);
            }
        }
    }
}

/// Dropping commands uses no key more often.
pub proof fn lemma_key_uses_filter(
    cs: Seq<ResourceCommandView>,
    pred: spec_fn(ResourceCommandView) -> bool,
    k: Seq<char>,
)
    ensures
        key_uses(cs.filter(pred), k) <= key_uses(cs, k),
    decreases cs.len(),
{
    reveal(Seq::filter);
    if cs.len() > 0 {
        lemma_key_uses_filter(cs.drop_last(), pred, k);
        let sub = cs.drop_last().filter(pred);
        if pred(cs.last()) {
            assert(sub.push(cs.last()).drop_last() =~= sub);
        }
    }
}

/// Each count of an entry grows by at most the number of commands recorded
/// under its key.
pub proof fn lemma_counts_after(
    m: Map<Seq<char>, ResourceLedgerEntryView>,
    cs: Seq<ResourceCommandView>,
    tx: u32,
    k: Seq<char>,
)
    requires
        apply_cmds(m, cs, tx).contains_key(k),
    ensures
        apply_cmds(m, cs, tx)[k].open_count <= entry_or_fresh(m, k).open_count + key_uses(cs, k),
        apply_cmds(m, cs, tx)[k].close_count <= entry_or_fresh(m, k).close_count + key_uses(cs, k),
        apply_cmds(m, cs, tx)[k].cancel_count <= entry_or_fresh(m, k).cancel_count + key_uses(cs, k),
    decreases cs.len(),
{
    if cs.len() > 0 {
        let m0 = apply_cmds(m, cs.drop_last(), tx);
        if m0.contains_key(k) {
            lemma_counts_after(m, cs.drop_last(), tx, k);
        } else if effective_key(cs.last()) == k {
            lemma_untouched_absent(m, cs.drop_last(), tx, k);
        }
    }
}

/// A key no command is recorded under keeps its entry, or its absence.
pub proof fn lemma_untouched_absent(
    m: Map<Seq<char>, ResourceLedgerEntryView>,
    cs: Seq<ResourceCommandView>,
    tx: u32,
    k: Seq<char>,
)
    requires
        !apply_cmds(m, cs, tx).contains_key(k),
    ensures
        !m.contains_key(k),
        key_uses(cs, k) == 0,
    decreases cs.len(),
{
    if cs.len() > 0 {
        lemma_untouched_absent(m, cs.drop_last(), tx, k);
    }
}

/// Every entry's owners are strictly increasing, hence without repeats.
pub open spec fn owners_sorted(m: Map<Seq<char>, ResourceLedgerEntryView>) -> bool {
    forall|k: Seq<char>| #[trigger] m.contains_key(k) ==> sorted(m[k].owners) && m[k].owners.no_duplicates()
}

/// Whether some command is recorded under `k`.
pub open spec fn touched(cs: Seq<ResourceCommandView>, k: Seq<char>) -> bool {
    exists|i: int| 0 <= i < cs.len() && effective_key(#[trigger] cs[i]) == k
}

/// Filtering keeps a sequence free of repeats.
proof fn lemma_filter_no_dup(s: Seq<Seq<char>>, x: Seq<char>)
    requires
        s.no_duplicates(),
    ensures
        without(s, x).no_duplicates(),
        forall|y: Seq<char>| #[trigger] without(s, x).contains(y) <==> s.contains(y) && y != x,
    decreases s.len(),
{
    broadcast use {vstd::seq_lib::group_filter_ensures, Seq::lemma_filter_contains_rev, Seq::lemma_filter_push};

    assert forall|y: Seq<char>| #[trigger] without(s, x).contains(y) <==> s.contains(y) && y != x by {
        if without(s, x).contains(y) {
            let j = choose|j: int| 0 <= j < without(s, x).len() && without(s, x)[j] == y;
            assert(without(s, x)[j] != x);
        }
        if s.contains(y) && y != x {
            let i = choose|i: int| 0 <= i < s.len() && s[i] == y;
            assert(without(s, x).contains(s[i]));
        }
    }
    if s.len() > 0 {
        let t = s.drop_last();
        assert(t.no_duplicates());
        lemma_filter_no_dup(t, x);
        assert(t.push(s.last()) =~= s);
        assert(without(t.push(s.last()), x) == without(s, x));
        if s.last() != x {
            assert(without(s, x) == without(t, x).push(s.last()));
            assert(!t.contains(s.last())) by {
                if t.contains(s.last()) {
                    let i = choose|i: int| 0 <= i < t.len() && t[i] == s.last();
                    assert(s[i] == s[s.len() - 1]);
                }
            }
            let w = without(t, x);
            assert(!w.contains(s.last()));
            assert forall|a: int, b: int| 0 <= a < w.push(s.last()).len() && 0 <= b < w.push(s.last()).len() && a != b
                implies w.push(s.last())[a] != w.push(s.last())[b] by {
                if a < w.len() && b < w.len() {
                } else if a < w.len() {
                    assert(w.contains(w[a]));
                } else if b < w.len() {
                    assert(w.contains(w[b]));
                }
            }
        } else {
            assert(without(s, x) == without(t, x));
        }
    } else {
        assert(without(s, x).len() == 0);
    }
}

/// One command keeps the entry's owners strictly increasing; `Open`
/// leaves the scope an owner, `Close` and `Cancel` leave it none, and
/// every command records its revision, transaction and reason.
pub proof fn lemma_entry_after(e: ResourceLedgerEntryView, c: ResourceCommandView, tx: u32)
    requires
        e.owners.no_duplicates(),
    ensures
        sorted(apply_cmd_entry(e, c, tx).owners),
        apply_cmd_entry(e, c, tx).owners.no_duplicates(),
{
    reveal_strlit("Open");
    reveal_strlit("Close");
    reveal_strlit("Cancel");
    assert("Open"@.len() == 4 && "Close"@.len() == 5 && "Cancel"@.len() == 6);
    let o = if c.op == "Open"@ {
        if e.owners.contains(c.scope) {
            e.owners
        } else {
            e.owners.push(c.scope)
        }
    } else if c.op == "Close"@ || c.op == "Cancel"@ {
        without(e.owners, c.scope)
    } else {
        e.owners
    };
    if c.op == "Open"@ && !e.owners.contains(c.scope) {
        assert forall|a: int, b: int| 0 <= a < o.len() && 0 <= b < o.len() && a != b implies o[a] != o[b] by {
            if a < e.owners.len() && b < e.owners.len() {
            } else if a < e.owners.len() {
                assert(e.owners.contains(e.owners[a]));
            } else if b < e.owners.len() {
                assert(e.owners.contains(e.owners[b]));
            }
        }
        assert(o[e.owners.len() as int] == c.scope);
        assert(o.contains(c.scope));
    }
    if c.op == "Close"@ || c.op == "Cancel"@ {
        assert(c.op != "Open"@);
        assert(o == without(e.owners, c.scope));
        lemma_filter_no_dup(e.owners, c.scope);
        assert(!without(e.owners, c.scope).contains(c.scope));
    }
    assert(apply_cmd_entry(e, c, tx).owners == sort_seq(o));
    crate::strmap::lemma_sort_seq_sorted(o);
    crate::strmap::lemma_sort_seq_multiset(o);
    assert(sort_seq(o).contains(c.scope) == o.contains(c.scope));
}

/// What a command leaves in the entry it is recorded under: its revision,
/// transaction and reason, and the state and ownership its operation
/// gives (`Open` keeps the scope an owner, `Close` and `Cancel` drop it).
pub open spec fn left_by(e: ResourceLedgerEntryView, c: ResourceCommandView, tx: u32) -> bool {
    &&& e.last_tx_id == tx
    &&& e.last_command_revision == c.command_revision
    &&& e.cause == c.cause.reason
    &&& c.op == "Open"@ ==> e.state == "open"@ && e.owners.contains(c.scope)
    &&& c.op == "Close"@ ==> e.state == "closed"@ && !e.owners.contains(c.scope)
    &&& c.op == "Cancel"@ ==> e.state == "cancelled"@ && !e.owners.contains(c.scope)
}

/// Whether no command after the `i`-th is recorded under its key.
pub open spec fn last_for_key(cs: Seq<ResourceCommandView>, i: int) -> bool {
    &&& 0 <= i < cs.len()
    &&& forall|j: int| i < j < cs.len() ==> effective_key(#[trigger] cs[j]) != effective_key(cs[i])
}

proof fn lemma_owners_sorted_after(m: Map<Seq<char>, ResourceLedgerEntryView>, cs: Seq<ResourceCommandView>, tx: u32)
    requires
        owners_sorted(m),
    ensures
        owners_sorted(apply_cmds(m, cs, tx)),
    decreases cs.len(),
{
    if cs.len() > 0 {
        let t = cs.drop_last();
        lemma_owners_sorted_after(m, t, tx);
        let m0 = apply_cmds(m, t, tx);
        let k = effective_key(cs.last());
        let e = if m0.contains_key(k) { m0[k] } else { fresh_entry(k) };
        assert(fresh_entry(k).owners.no_duplicates());
        lemma_entry_after(e, cs.last(), tx);
    }
}

proof fn lemma_untouched_kept(m: Map<Seq<char>, ResourceLedgerEntryView>, cs: Seq<ResourceCommandView>, tx: u32, k: Seq<char>)
    requires
        !touched(cs, k),
    ensures
        apply_cmds(m, cs, tx).contains_key(k) == m.contains_key(k),
        m.contains_key(k) ==> apply_cmds(m, cs, tx)[k] == m[k],
    decreases cs.len(),
{
    if cs.len() > 0 {
        let t = cs.drop_last();
        assert(effective_key(cs[cs.len() - 1]) != k);
        assert(!touched(t, k)) by {
            if touched(t, k) {
                let i = choose|i: int| 0 <= i < t.len() && effective_key(#[trigger] t[i]) == k;
                assert(cs[i] == t[i]);
            }
        }
        lemma_untouched_kept(m, t, tx, k);
    }
}

proof fn lemma_last_command(m: Map<Seq<char>, ResourceLedgerEntryView>, cs: Seq<ResourceCommandView>, tx: u32, i: int)
    requires
        last_for_key(cs, i),
    ensures
        apply_cmds(m, cs, tx).contains_key(effective_key(cs[i])),
        left_by(apply_cmds(m, cs, tx)[effective_key(cs[i])], cs[i], tx),
    decreases cs.len(),
{
    let t = cs.drop_last();
    let m0 = apply_cmds(m, t, tx);
    let k = effective_key(cs.last());
    let e = if m0.contains_key(k) { m0[k] } else { fresh_entry(k) };
    if i == cs.len() - 1 {
        lemma_entry_after_any(e, cs.last(), tx);
    } else {
        assert(t[i] == cs[i]);
        assert(effective_key(cs[cs.len() - 1]) != effective_key(cs[i]));
        assert forall|j: int| i < j < t.len() implies effective_key(#[trigger] t[j]) != effective_key(t[i]) by {
            assert(t[j] == cs[j]);
        }
        lemma_last_command(m, t, tx, i);
    }
}

/// What a command leaves holds whatever the entry held.
proof fn lemma_entry_after_any(e: ResourceLedgerEntryView, c: ResourceCommandView, tx: u32)
    ensures
        left_by(apply_cmd_entry(e, c, tx), c, tx),
{
    reveal_strlit("Open");
    reveal_strlit("Close");
    reveal_strlit("Cancel");
    assert("Open"@.len() == 4 && "Close"@.len() == 5 && "Cancel"@.len() == 6);
    let o = if c.op == "Open"@ {
        if e.owners.contains(c.scope) {
            e.owners
        } else {
            e.owners.push(c.scope)
        }
    } else if c.op == "Close"@ || c.op == "Cancel"@ {
        without(e.owners, c.scope)
    } else {
        e.owners
    };
    if c.op == "Open"@ && !e.owners.contains(c.scope) {
        assert(o[e.owners.len() as int] == c.scope);
    }
    if c.op == "Close"@ || c.op == "Cancel"@ {
        assert(o == without(e.owners, c.scope));
        lemma_filter_any(e.owners, c.scope);
    }
    assert(apply_cmd_entry(e, c, tx).owners == sort_seq(o));
    crate::strmap::lemma_sort_seq_multiset(o);
    assert(sort_seq(o).contains(c.scope) == o.contains(c.scope));
}

/// Filtering out `x` leaves no `x`.
proof fn lemma_filter_any(s: Seq<Seq<char>>, x: Seq<char>)
    ensures
        !without(s, x).contains(x),
{
    broadcast use vstd::seq_lib::group_filter_ensures;

    if without(s, x).contains(x) {
        let j = choose|j: int| 0 <= j < without(s, x).len() && without(s, x)[j] == x;
        assert(without(s, x)[j] != x);
    }
}

/// Applying resource commands leaves the entries of keys no command is
/// recorded under as they were, and under each key what the last command
/// recorded under it left.
pub proof fn lemma_last_commands(
    m: Map<Seq<char>, ResourceLedgerEntryView>,
    cs: Seq<ResourceCommandView>,
    tx: u32,
)
    ensures
        forall|k: Seq<char>|
            !touched(cs, k) ==> (#[trigger] apply_cmds(m, cs, tx).contains_key(k) == m.contains_key(k) && (
            m.contains_key(k) ==> apply_cmds(m, cs, tx)[k] == m[k])),
        forall|i: int|
            #[trigger] last_for_key(cs, i) ==> apply_cmds(m, cs, tx).contains_key(effective_key(cs[i])) && left_by(
                apply_cmds(m, cs, tx)[effective_key(cs[i])],
                cs[i],
                tx,
            ),
{
    assert forall|k: Seq<char>| !touched(cs, k) implies (#[trigger] apply_cmds(m, cs, tx).contains_key(k)
        == m.contains_key(k) && (m.contains_key(k) ==> apply_cmds(m, cs, tx)[k] == m[k])) by {
        lemma_untouched_kept(m, cs, tx, k);
    }
    assert forall|i: int| #[trigger] last_for_key(cs, i) implies apply_cmds(m, cs, tx).contains_key(
        effective_key(cs[i]),
    ) && left_by(apply_cmds(m, cs, tx)[effective_key(cs[i])], cs[i], tx) by {
        lemma_last_command(m, cs, tx, i);
    }
}

/// Applying resource commands keeps every entry's owners strictly
/// increasing (so without repeats), leaves the entries of keys no command
/// is recorded under as they were (or absent), and leaves under each key
/// what the last command recorded under it left: that command's revision,
/// transaction and reason, and the state and ownership its operation
/// gives.
pub proof fn law_commands_keep_owners_sorted(
    m: Map<Seq<char>, ResourceLedgerEntryView>,
    cs: Seq<ResourceCommandView>,
    tx: u32,
)
    requires
        owners_sorted(m),
    ensures
        owners_sorted(apply_cmds(m, cs, tx)),
        forall|k: Seq<char>|
            !touched(cs, k) ==> (#[trigger] apply_cmds(m, cs, tx).contains_key(k) == m.contains_key(k) && (
            m.contains_key(k) ==> apply_cmds(m, cs, tx)[k] == m[k])),
        forall|i: int|
            #[trigger] last_for_key(cs, i) ==> apply_cmds(m, cs, tx).contains_key(effective_key(cs[i])) && left_by(
                apply_cmds(m, cs, tx)[effective_key(cs[i])],
                cs[i],
                tx,
            ),
{
    lemma_owners_sorted_after(m, cs, tx);
    assert forall|k: Seq<char>| !touched(cs, k) implies (#[trigger] apply_cmds(m, cs, tx).contains_key(k)
        == m.contains_key(k) && (m.contains_key(k) ==> apply_cmds(m, cs, tx)[k] == m[k])) by {
        lemma_untouched_kept(m, cs, tx, k);
    }
    assert forall|i: int| #[trigger] last_for_key(cs, i) implies apply_cmds(m, cs, tx).contains_key(
        effective_key(cs[i]),
    ) && left_by(apply_cmds(m, cs, tx)[effective_key(cs[i])], cs[i], tx) by {
        lemma_last_command(m, cs, tx, i);
    }
}

/// Every entry is filed under its own key.
pub open spec fn ledger_keyed(m: Map<Seq<char>, ResourceLedgerEntryView>) -> bool {
    forall|k: Seq<char>| #[trigger] m.contains_key(k) ==> m[k].key == k
}

/// Applying commands keeps every entry filed under its own key.
pub proof fn lemma_apply_cmds_keyed(
    m: Map<Seq<char>, ResourceLedgerEntryView>,
    cs: Seq<ResourceCommandView>,
    tx: u32,
)
    requires
        ledger_keyed(m),
    ensures
        ledger_keyed(apply_cmds(m, cs, tx)),
    decreases cs.len(),
{
    if cs.len() > 0 {
        lemma_apply_cmds_keyed(m, cs.drop_last(), tx);
    }
}

fn effective_key_of(c: &ResourceCommand) -> (k: String)
    ensures
        k@ == effective_key(c.deep_view()),
{
    match &c.new_key {
        Some(k) => k.dup(),
        None => match &c.old_key {
            Some(k) => k.dup(),
            None => c.key.dup(),
        },
    }
}

fn apply_to_entry(e: ResourceLedgerEntry, c: &ResourceCommand, tx: u32) -> (r: ResourceLedgerEntry)
    requires
        e.open_count < u32::MAX,
        e.close_count < u32::MAX,
        e.cancel_count < u32::MAX,
    ensures
        r.deep_view() == apply_cmd_entry(e.deep_view(), c.deep_view(), tx),
{
    let mut e = e;
    let ghost e0 = e.deep_view();
    assert(e0.owners =~= views(e.owners@));
    if str_eq(c.op.as_str(), "Open") {
        e.state = owned("open");
        e.open_count = e.open_count + 1;
        if !strings_contain(e.owners.as_slice(), c.scope.as_str()) {
            e.owners.push(c.scope.dup());
            assert(e.owners.deep_view() =~= e0.owners.push(c.scope@));
        }
    } else if str_eq(c.op.as_str(), "Close") {
        e.state = owned("closed");
        e.close_count = e.close_count + 1;
        e.owners = strings_without(e.owners.as_slice(), c.scope.as_str());
    } else if str_eq(c.op.as_str(), "Cancel") {
        e.state = owned("cancelled");
        e.cancel_count = e.cancel_count + 1;
        e.owners = strings_without(e.owners.as_slice(), c.scope.as_str());
    }
    let ghost e1 = e.deep_view();
    assert(e1.owners =~= views(e.owners@));
    e.last_command_revision = c.command_revision;
    e.last_tx_id = tx;
    e.cause = c.cause.reason.dup();
    let mut owners: Vec<String> = Vec::new();
    std::mem::swap(&mut owners, &mut e.owners);
    e.owners = sort_strings(owners);
    assert(e.owners.deep_view() =~= views(e.owners@));
    e
}

/// Applies resource commands to the ledger in order, each to the entry
/// under its effective key (created closed when missing).
pub fn apply_resource_commands(
    ledger: &mut StrMap<ResourceLedgerEntry>,
    commands: &[ResourceCommand],
    tx_id: u32,
)
    requires
        counts_have_room(old(ledger)@, commands.deep_view()),
    ensures
        final(ledger)@ == apply_cmds(old(ledger)@, commands.deep_view(), tx_id),
        owners_sorted(old(ledger)@) ==> owners_sorted(final(ledger)@),
        forall|k: Seq<char>|
            !touched(commands.deep_view(), k) ==> (#[trigger] final(ledger)@.contains_key(k) == old(
                ledger,
            )@.contains_key(k) && (old(ledger)@.contains_key(k) ==> final(ledger)@[k] == old(ledger)@[k])),
        forall|i: int|
            #[trigger] last_for_key(commands.deep_view(), i) ==> final(ledger)@.contains_key(
                effective_key(commands.deep_view()[i]),
            ) && left_by(final(ledger)@[effective_key(commands.deep_view()[i])], commands.deep_view()[i], tx_id),
{
    proof {
        lemma_last_commands(old(ledger)@, commands.deep_view(), tx_id);
        if owners_sorted(old(ledger)@) {
            law_commands_keep_owners_sorted(old(ledger)@, commands.deep_view(), tx_id);
        }
    }
    let ghost m0 = ledger@;
    let ghost cs = commands.deep_view();
    let n = commands.len();
    let mut i: usize = 0;
    assert(cs.subrange(0, n as int) =~= cs);
    while i < n
        invariant
            n == commands@.len(),
            cs == commands.deep_view(),
            i <= n,
            ledger@ == apply_cmds(m0, cs.take(i as int), tx_id),
            counts_have_room(ledger@, cs.subrange(i as int, n as int)),
        decreases n - i,
    {
        let c = &commands[i];
        let k = effective_key_of(c);
        let ghost before = ledger@;
        let ghost rest = cs.subrange(i as int, n as int);
        let ghost next = cs.subrange(i + 1, n as int);
        let e = match ledger.remove(k.as_str()) {
            Some(e) => e,
            None => ResourceLedgerEntry {
                key: k.dup(),
                state: owned("closed"),
                owners: Vec::new(),
                open_count: 0,
                close_count: 0,
                cancel_count: 0,
                last_command_revision: 0,
                last_tx_id: 0,
                cause: String::new(),
            },
        };
        proof {
            reveal_strlit("closed");
            assert(e.deep_view() == entry_or_fresh(before, k@)) by {
                if !before.contains_key(k@) {
                    assert(e.owners.deep_view() =~= Seq::<Seq<char>>::empty());
                    assert(e.cause@ =~= Seq::<char>::empty());
                }
            }
            assert(rest.drop_first() =~= next);
            assert(rest[0] == cs[i as int]);
            lemma_key_uses_front(rest, k@);
            assert(key_uses(rest, k@) > 0);
        }
        let ghost ev = e.deep_view();
        let ne = apply_to_entry(e, c, tx_id);
        ledger.insert(k, ne);
        proof {
            assert(cs.take(i + 1).drop_last() =~= cs.take(i as int));
            assert(cs.take(i + 1).last() == cs[i as int]);
            assert(ledger@ =~= before.insert(k@, ne.deep_view()));
            assert forall|q: Seq<char>| #[trigger] key_uses(next, q) > 0 implies ({
                let e2 = entry_or_fresh(ledger@, q);
                &&& e2.open_count + key_uses(next, q) <= u32::MAX
                &&& e2.close_count + key_uses(next, q) <= u32::MAX
                &&& e2.cancel_count + key_uses(next, q) <= u32::MAX
            }) by {
                lemma_key_uses_front(rest, q);
                assert(key_uses(rest, q) > 0);
                if q != k@ {
                    assert(entry_or_fresh(ledger@, q) == entry_or_fresh(before, q));
                } else {
                    assert(ne.open_count <= ev.open_count + 1);
                    assert(ne.close_count <= ev.close_count + 1);
                    assert(ne.cancel_count <= ev.cancel_count + 1);
                }
            }
        }
        i = i + 1;
    }
    proof {
        assert(cs.take(n as int) =~= cs);
    }
}

// ---------------------------------------------------------------------
// Output ledger
// ---------------------------------------------------------------------
/// The output ledger before any frame.
pub open spec fn empty_output_ledger_spec() -> OutputLedgerView {
    OutputLedgerView {
        diagnostics_by_file: Map::empty(),
        links_by_file: Map::empty(),
        tokens_by_file: Map::empty(),
        revisions_by_output_key: Map::empty(),
    }
}

/// An output ledger that has seen no frame.
pub fn empty_output_ledger() -> (r: OutputLedger)
    ensures
        r.deep_view() == empty_output_ledger_spec(),
{
    OutputLedger {
        diagnostics_by_file: StrMap::new(),
        links_by_file: StrMap::new(),
        tokens_by_file: StrMap::new(),
        revisions_by_output_key: StrMap::new(),
    }
}

/// The ledger after one frame: the frame's revision is recorded under its
/// output key; a frame about a file then replaces (baseline) or drops
/// (clear) that file's diagnostics, links or tokens; a diagnostics
/// baseline with no diagnostics drops them too.
pub open spec fn apply_frame(l: OutputLedgerView, f: OutputFrameView) -> OutputLedgerView {
    let l1 = OutputLedgerView {
        revisions_by_output_key: l.revisions_by_output_key.insert(f.output_key, f.revision),
        ..l
    };
    match f.file_path {
        None => l1,
        Some(p) => if f.kind == "ClearDiagnostics"@ {
            OutputLedgerView { diagnostics_by_file: l1.diagnostics_by_file.remove(p), ..l1 }
        } else if f.kind == "BaselineDiagnostics"@ {
            if f.diagnostics.len() == 0 {
                OutputLedgerView { diagnostics_by_file: l1.diagnostics_by_file.remove(p), ..l1 }
            } else {
                OutputLedgerView {
                    diagnostics_by_file: l1.diagnostics_by_file.insert(p, f.diagnostics),
                    ..l1
                }
            }
        } else if f.kind == "ClearDocumentLinks"@ {
            OutputLedgerView { links_by_file: l1.links_by_file.remove(p), ..l1 }
        } else if f.kind == "BaselineDocumentLinks"@ {
            OutputLedgerView { links_by_file: l1.links_by_file.insert(p, f.links), ..l1 }
        } else if f.kind == "ClearSemanticTokens"@ {
            OutputLedgerView { tokens_by_file: l1.tokens_by_file.remove(p), ..l1 }
        } else if f.kind == "BaselineSemanticTokens"@ {
            OutputLedgerView { tokens_by_file: l1.tokens_by_file.insert(p, f.tokens), ..l1 }
        } else {
            l1
        },
    }
}

/// The ledger after a sequence of frames, applied in order.
pub open spec fn apply_frames(l: OutputLedgerView, fs: Seq<OutputFrameView>) -> OutputLedgerView
    decreases fs.len(),
{
    if fs.len() == 0 {
        l
    } else {
        apply_frame(apply_frames(l, fs.drop_last()), fs.last())
    }
}

fn apply_one_frame(ledger: &mut OutputLedger, frame: &OutputFrame)
    ensures
        final(ledger).deep_view() == apply_frame(old(ledger).deep_view(), frame.deep_view()),
{
    ledger.revisions_by_output_key.insert(frame.output_key.dup(), frame.revision);
    if let Some(path) = &frame.file_path {
        let kind = frame.kind.as_str();
        if str_eq(kind, "ClearDiagnostics") {
            ledger.diagnostics_by_file.remove(path.as_str());
        } else if str_eq(kind, "BaselineDiagnostics") {
            if frame.diagnostics.len() == 0 {
                ledger.diagnostics_by_file.remove(path.as_str());
            } else {
                ledger.diagnostics_by_file.insert(path.dup(), frame.diagnostics.dup());
            }
        } else if str_eq(kind, "ClearDocumentLinks") {
            ledger.links_by_file.remove(path.as_str());
        } else if str_eq(kind, "BaselineDocumentLinks") {
            ledger.links_by_file.insert(path.dup(), frame.links.dup());
        } else if str_eq(kind, "ClearSemanticTokens") {
            ledger.tokens_by_file.remove(path.as_str());
        } else if str_eq(kind, "BaselineSemanticTokens") {
            ledger.tokens_by_file.insert(path.dup(), frame.tokens.dup());
        }
    }
}

/// Applies output frames to the ledger in order.
pub fn apply_output_frames(ledger: &mut OutputLedger, frames: &[OutputFrame])
    ensures
        final(ledger).deep_view() == apply_frames(old(ledger).deep_view(), frames.deep_view()),
{
    let ghost l0 = ledger.deep_view();
    let ghost fs = frames.deep_view();
    let mut i: usize = 0;
    while i < frames.len()
        invariant
            fs == frames.deep_view(),
            i <= frames@.len(),
            ledger.deep_view() == apply_frames(l0, fs.take(i as int)),
        decreases frames.len() - i,
    {
        apply_one_frame(ledger, &frames[i]);
        proof {
            assert(fs.take(i + 1).drop_last() =~= fs.take(i as int));
            assert(fs.take(i + 1).last() == fs[i as int]);
        }
        i = i + 1;
    }
    proof {
        assert(fs.take(frames@.len() as int) =~= fs);
    }
}

} // verus!
