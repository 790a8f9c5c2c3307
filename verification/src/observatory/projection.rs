//! What a reconciliation transaction yields between two derived states:
//! the resource plan that takes resource demand from one state to the
//! other, and the output frames that take consumers from one state's
//! outputs to the other's.
use vstd::prelude::*;
use crate::dup::{Dup, SameView};
use crate::observatory::compute::{cause, cause_spec, file_scope, file_scope_of, job_key, watch_key};
use crate::observatory::ledger::{
    apply_cmds, apply_frame, apply_frames, close_op, close_op_spec, effective_key, inner_of, key_uses,
    lemma_key_uses_distinct,
};
use crate::observatory::types::{
    Diagnostic, DiagnosticView, DocumentLink, DocumentLinkView, FullState, FullStateView,
    OutputFrame, OutputFrameView, OutputLedgerView, ResourceCommand, ResourceCommandView,
    ResourceLedgerEntryView,
    Revision, SemanticToken, SemanticTokenView,
};
use crate::strmap::{sorted, strings_contain, views, StrSet};
use crate::text::{
    append, chars_of, contains, dec, find, find_chars, lemma_find_from, match_at, owned, starts_with, str_starts_with,
    string_of_range,
};

verus! {

// ---------------------------------------------------------------------
// Resource plan
// ---------------------------------------------------------------------
/// The file a resource belongs to: the argument of its key, less any
/// `@rev` suffix; workspace indexes belong to no file.
pub open spec fn resource_path_spec(key: Seq<char>) -> Option<Seq<char>> {
    if starts_with(key, "WorkspaceIndex("@) {
        None
    } else {
        match inner_of(key) {
            Some(inner) => match find(inner, "@rev"@) {
                Some(c) => Some(inner.subrange(0, c)),
                None => Some(inner),
            },
            None => None,
        }
    }
}

/// The file a resource belongs to, if any.
pub fn resource_path(key: &str) -> (r: Option<String>)
    ensures
        r.deep_view() == resource_path_spec(key@),
{
    if str_starts_with(key, "WorkspaceIndex(") {
        return None;
    }
    match crate::observatory::ledger::inner(key) {
        Some(inner) => {
            let ic = chars_of(inner.as_str());
            let rev = chars_of("@rev");
            match find_chars(ic.as_slice(), rev.as_slice()) {
                Some(c) => {
                    proof {
                        lemma_find_from(inner@, "@rev"@, 0);
                    }
                    Some(string_of_range(ic.as_slice(), 0, c))
                },
                None => Some(inner),
            }
        },
        None => None,
    }
}

/// The scope a planned command is attributed to: the file scope of the
/// resource's file, or the workspace scope the plan was made in.
pub open spec fn resource_scope_spec(key: Seq<char>, workspace_scope: Seq<char>) -> Seq<char> {
    match resource_path_spec(key) {
        Some(p) => file_scope(p),
        None => workspace_scope,
    }
}

/// A sequence that does not contain `c` as a one-character string has no
/// `c` at any position.
proof fn lemma_no_char(p: Seq<char>, c: char)
    requires
        !contains(p, seq![c]),
    ensures
        forall|i: int| 0 <= i < p.len() ==> p[i] != c,
{
    lemma_find_from(p, seq![c], 0);
    assert forall|i: int| 0 <= i < p.len() implies p[i] != c by {
        if p[i] == c {
            assert(p.subrange(i, i + 1) =~= seq![c]);
            assert(match_at(p, seq![c], i));
        }
    }
}

/// The first occurrence of `n` in `h` is at `j` when it occurs there and
/// nowhere before.
proof fn lemma_find_at(h: Seq<char>, n: Seq<char>, j: int)
    requires
        match_at(h, n, j),
        forall|k: int| 0 <= k < j ==> !match_at(h, n, k),
    ensures
        find(h, n) == Some(j),
{
    lemma_find_from(h, n, 0);
}

/// A decimal rendering holds no `)`.
proof fn lemma_dec_no_paren(n: nat)
    ensures
        forall|i: int| 0 <= i < dec(n).len() ==> dec(n)[i] != ')',
    decreases n,
{
    if n >= 10 {
        lemma_dec_no_paren(n / 10);
        assert forall|i: int| 0 <= i < dec(n).len() implies dec(n)[i] != ')' by {
            if i < dec(n / 10).len() {
                assert(dec(n)[i] == dec(n / 10)[i]);
            }
        }
    }
}

/// The argument of a key `name(body)`, where the name holds no `(` and
/// the body no `)`, is the body.
proof fn lemma_inner(pre: Seq<char>, body: Seq<char>)
    requires
        pre.len() >= 1,
        pre[pre.len() - 1] == '(',
        forall|i: int| 0 <= i < pre.len() - 1 ==> pre[i] != '(',
        forall|i: int| 0 <= i < body.len() ==> body[i] != ')',
    ensures
        inner_of(pre + body + ")"@) == Some(body),
{
    reveal_strlit("(");
    reveal_strlit(")");
    let key = pre + body + ")"@;
    let a = pre.len() - 1;
    assert(key.subrange(a, a + 1) =~= "("@);
    assert forall|k: int| 0 <= k < a implies !match_at(key, "("@, k) by {
        if match_at(key, "("@, k) {
            assert(key.subrange(k, k + 1)[0] == key[k]);
        }
    }
    lemma_find_at(key, "("@, a);
    let rest = key.subrange(a + 1, key.len() as int);
    assert(rest =~= body + ")"@);
    assert(rest.subrange(body.len() as int, body.len() as int + 1) =~= ")"@);
    assert forall|k: int| 0 <= k < body.len() implies !match_at(rest, ")"@, k) by {
        if match_at(rest, ")"@, k) {
            assert(rest.subrange(k, k + 1)[0] == rest[k]);
        }
    }
    lemma_find_at(rest, ")"@, body.len() as int);
    assert(rest.subrange(0, body.len() as int) =~= body);
}

/// A key that begins with a name whose second character is not `o` is no
/// workspace index.
proof fn lemma_not_index(key: Seq<char>)
    requires
        key.len() >= 2,
        key[1] != 'o',
    ensures
        !starts_with(key, "WorkspaceIndex("@),
{
    reveal_strlit("WorkspaceIndex(");
    if starts_with(key, "WorkspaceIndex("@) {
        assert(key.subrange(0, 15)[1] == key[1]);
    }
}

/// The file of an analysis job and of a file's watch is the file itself:
/// for a path with no `)` and no `@rev` in it, the job for any revision
/// and the watch of the path both belong to that path, so every command
/// planned for them, opening or closing, is attributed to the file's
/// scope `FileScope(path)`, the same for both.
pub proof fn law_file_resources_belong_to_the_file(p: Seq<char>, rev: u32, ws: Seq<char>)
    requires
        !contains(p, ")"@),
        !contains(p, "@rev"@),
    ensures
        resource_path_spec(job_key(p, rev)) == Some(p),
        resource_path_spec(watch_key(p)) == Some(p),
        resource_scope_spec(job_key(p, rev), ws) == "FileScope("@ + p + ")"@,
        resource_scope_spec(watch_key(p), ws) == "FileScope("@ + p + ")"@,
        forall|keys: Seq<Seq<char>>, opening: bool, revision: Revision, label: Seq<char>, i: int|
            0 <= i < keys.len() && (keys[i] == job_key(p, rev) || keys[i] == watch_key(p)) ==> (#[trigger] plan_for(
                keys,
                opening,
                ws,
                revision,
                label,
            )[i]).scope == "FileScope("@ + p + ")"@,
{
    reveal_strlit(")");
    reveal_strlit("@rev");
    reveal_strlit("AnalysisJob(");
    reveal_strlit("WatchFile(");
    reveal_strlit("GeneratedFileWatch(");
    assert(")"@ =~= seq![')']);
    lemma_no_char(p, ')');
    lemma_dec_no_paren(rev as nat);
    let d = dec(rev as nat);
    // The job.
    let body = p + "@rev"@ + d;
    assert forall|i: int| 0 <= i < body.len() implies body[i] != ')' by {
        if i < p.len() {
            assert(body[i] == p[i]);
        } else if i < p.len() + 4 {
        } else {
            assert(body[i] == d[i - p.len() - 4]);
        }
    }
    lemma_inner("AnalysisJob("@, body);
    assert("AnalysisJob("@ + p + "@rev"@ + d + ")"@ =~= "AnalysisJob("@ + body + ")"@);
    lemma_find_from(p, "@rev"@, 0);
    assert(body.subrange(p.len() as int, p.len() as int + 4) =~= "@rev"@);
    assert forall|k: int| 0 <= k < p.len() implies !match_at(body, "@rev"@, k) by {
        if match_at(body, "@rev"@, k) {
            if k + 4 <= p.len() {
                assert(p.subrange(k, k + 4) =~= body.subrange(k, k + 4));
                assert(match_at(p, "@rev"@, k));
            } else {
                let j = p.len() - k;
                assert(body.subrange(k, k + 4)[j] == body[p.len() as int]);
                assert(body[p.len() as int] == '@');
            }
        }
    }
    lemma_find_at(body, "@rev"@, p.len() as int);
    assert(body.subrange(0, p.len() as int) =~= p);
    lemma_not_index(job_key(p, rev));
    // The watch.
    if starts_with(p, "generated/"@) {
        lemma_inner("GeneratedFileWatch("@, p);
        lemma_not_index(watch_key(p));
    } else {
        lemma_inner("WatchFile("@, p);
        lemma_not_index(watch_key(p));
    }
    assert forall|keys: Seq<Seq<char>>, opening: bool, revision: Revision, label: Seq<char>, i: int|
        0 <= i < keys.len() && (keys[i] == job_key(p, rev) || keys[i] == watch_key(p)) implies (#[trigger] plan_for(
            keys,
            opening,
            ws,
            revision,
            label,
        )[i]).scope == "FileScope("@ + p + ")"@ by {}
}

/// The scope label of a planned command.
pub fn resource_scope_label(key: &str, workspace_scope: &str) -> (r: String)
    ensures
        r@ == resource_scope_spec(key@, workspace_scope@),
{
    match resource_path(key) {
        Some(p) => file_scope_of(p.as_str()),
        None => owned(workspace_scope),
    }
}

/// The workspace scope of a branch.
pub open spec fn workspace_scope(branch: Seq<char>) -> Seq<char> {
    "WorkspaceScope("@ + branch + ")"@
}

/// A planned command for a key.
pub open spec fn plan_command_spec(
    op: Seq<char>,
    key: Seq<char>,
    ws: Seq<char>,
    revision: Revision,
    label: Seq<char>,
) -> ResourceCommandView {
    ResourceCommandView {
        op,
        key,
        old_key: None,
        new_key: None,
        scope: resource_scope_spec(key, ws),
        command_revision: revision,
        policy: None,
        cause: cause_spec(
            "trellis-core transaction"@,
            label,
            "resourcePlan"@,
            "trellis-core ResourcePlan reconciled desired resource demand"@,
        ),
    }
}

fn plan_command(op: &str, key: &str, ws: &str, revision: Revision, label: &str) -> (r: ResourceCommand)
    ensures
        r.deep_view() == plan_command_spec(op@, key@, ws@, revision, label@),
{
    ResourceCommand {
        op: owned(op),
        key: owned(key),
        old_key: None,
        new_key: None,
        scope: resource_scope_label(key, ws),
        command_revision: revision,
        policy: None,
        cause: cause(
            "trellis-core transaction",
            label,
            "resourcePlan",
            "trellis-core ResourcePlan reconciled desired resource demand",
        ),
    }
}

/// The planned commands for a sequence of keys, all of one kind: opens,
/// or closes (cancels for analysis jobs).
pub open spec fn plan_for(keys: Seq<Seq<char>>, opening: bool, ws: Seq<char>, revision: Revision, label: Seq<char>) -> Seq<
    ResourceCommandView,
> {
    keys.map_values(
        |k: Seq<char>|
            plan_command_spec(
                if opening {
                    "Open"@
                } else {
                    close_op_spec(k)
                },
                k,
                ws,
                revision,
                label,
            ),
    )
}

/// Whether `r` is the resource plan between two demands: the keys that
/// entered are opened, then the keys that left are closed (analysis jobs
/// cancelled), each in increasing key order, attributed within the given
/// workspace scope.
pub open spec fn plan_of(
    before: Set<Seq<char>>,
    after: Set<Seq<char>>,
    ws: Seq<char>,
    revision: Revision,
    label: Seq<char>,
    r: Seq<ResourceCommandView>,
) -> bool {
    exists|came: Seq<Seq<char>>, gone: Seq<Seq<char>>|
        {
            &&& sorted(came)
            &&& came.to_set() == after.difference(before)
            &&& sorted(gone)
            &&& gone.to_set() == before.difference(after)
            &&& r == #[trigger] plan_for(came, true, ws, revision, label) + #[trigger] plan_for(
                gone,
                false,
                ws,
                revision,
                label,
            )
        }
}

fn push_plan(r: &mut Vec<ResourceCommand>, keys: &Vec<String>, opening: bool, ws: &str, revision: Revision, label: &str)
    ensures
        final(r).deep_view() == old(r).deep_view() + plan_for(views(keys@), opening, ws@, revision, label@),
{
    let ghost start = r.deep_view();
    let mut i: usize = 0;
    while i < keys.len()
        invariant
            i <= keys@.len(),
            r.deep_view() == start + plan_for(views(keys@).take(i as int), opening, ws@, revision, label@),
        decreases keys.len() - i,
    {
        let k = keys[i].as_str();
        let op = if opening {
            "Open"
        } else {
            close_op(k)
        };
        proof {
            reveal_strlit("Open");
        }
        let c = plan_command(op, k, ws, revision, label);
        let ghost old_r = r.deep_view();
        r.push(c);
        proof {
            assert(views(keys@).take(i + 1) =~= views(keys@).take(i as int).push(keys@[i as int]@));
            assert(r.deep_view() =~= old_r.push(c.deep_view()));
            assert(plan_for(views(keys@).take(i + 1), opening, ws@, revision, label@) =~= plan_for(
                views(keys@).take(i as int),
                opening,
                ws@,
                revision,
                label@,
            ).push(c.deep_view()));
        }
        i = i + 1;
    }
    assert(views(keys@).take(keys@.len() as int) =~= views(keys@));
}

/// The resource plan that takes demand from `before` to `after`, attributed
/// within the given workspace scope.
pub fn plan_commands(before: &[String], after: &[String], ws: &str, revision: Revision, label: &str) -> (r:
    Vec<ResourceCommand>)
    ensures
        plan_of(views(before@).to_set(), views(after@).to_set(), ws@, revision, label@, r.deep_view()),
{
    let bs = StrSet::from_strings(before);
    let as_ = StrSet::from_strings(after);
    let came = as_.difference(&bs);
    let gone = bs.difference(&as_);
    let mut r: Vec<ResourceCommand> = Vec::new();
    assert(r.deep_view() =~= Seq::<ResourceCommandView>::empty());
    push_plan(&mut r, &came, true, ws, revision, label);
    push_plan(&mut r, &gone, false, ws, revision, label);
    proof {
        assert(Seq::<ResourceCommandView>::empty() + plan_for(views(came@), true, ws@, revision, label@)
            =~= plan_for(views(came@), true, ws@, revision, label@));
        assert(r.deep_view() == plan_for(views(came@), true, ws@, revision, label@) + plan_for(
            views(gone@),
            false,
            ws@,
            revision,
            label@,
        ));
    }
    r
}

/// A plan records at most one command under each key.
pub proof fn lemma_plan_uses_once(
    before: Set<Seq<char>>,
    after: Set<Seq<char>>,
    ws: Seq<char>,
    revision: Revision,
    label: Seq<char>,
    r: Seq<ResourceCommandView>,
    k: Seq<char>,
)
    requires
        plan_of(before, after, ws, revision, label, r),
    ensures
        key_uses(r, k) <= 1,
{
    let (came, gone) = choose|came: Seq<Seq<char>>, gone: Seq<Seq<char>>|
        {
            &&& sorted(came)
            &&& came.to_set() == after.difference(before)
            &&& sorted(gone)
            &&& gone.to_set() == before.difference(after)
            &&& r == #[trigger] plan_for(came, true, ws, revision, label) + #[trigger] plan_for(
                gone,
                false,
                ws,
                revision,
                label,
            )
        };
    let n = came.len() as int;
    assert forall|i: int, j: int|
        0 <= i < j < r.len() implies effective_key(#[trigger] r[i]) != effective_key(#[trigger] r[j]) by {
        let ki = if i < n { came[i] } else { gone[i - n] };
        let kj = if j < n { came[j] } else { gone[j - n] };
        assert(effective_key(r[i]) == ki);
        assert(effective_key(r[j]) == kj);
        if i < n && j < n {
            crate::text::lemma_lt_irreflexive(ki);
        } else if i >= n && j >= n {
            crate::text::lemma_lt_irreflexive(ki);
        } else {
            assert(came.to_set().contains(ki));
            assert(gone.to_set().contains(kj));
        }
    }
    lemma_key_uses_distinct(r, k);
}

/// Whether the ledger holds the resource open.
pub open spec fn is_open(m: Map<Seq<char>, ResourceLedgerEntryView>, k: Seq<char>) -> bool {
    m.contains_key(k) && m[k].state == "open"@
}

/// What one command does to whether `k` is open.
pub open spec fn cmd_open_at(c: ResourceCommandView, k: Seq<char>, cur: bool) -> bool {
    if effective_key(c) == k {
        if c.op == "Open"@ {
            true
        } else if c.op == "Close"@ || c.op == "Cancel"@ {
            false
        } else {
            cur
        }
    } else {
        cur
    }
}

/// What a sequence of commands does to whether `k` is open.
pub open spec fn cmds_open_at(cs: Seq<ResourceCommandView>, k: Seq<char>, cur: bool) -> bool
    decreases cs.len(),
{
    if cs.len() == 0 {
        cur
    } else {
        cmd_open_at(cs.last(), k, cmds_open_at(cs.drop_last(), k, cur))
    }
}

proof fn lemma_states_distinct()
    ensures
        "open"@ != "closed"@,
        "open"@ != "cancelled"@,
        "Open"@ != "Close"@,
        "Open"@ != "Cancel"@,
{
    reveal_strlit("open");
    reveal_strlit("closed");
    reveal_strlit("cancelled");
    reveal_strlit("Open");
    reveal_strlit("Close");
    reveal_strlit("Cancel");
    assert("open"@[0] != "closed"@[0]);
    assert("open"@[0] != "cancelled"@[0]);
    assert("Open"@[0] != "Close"@[0]);
    assert("Open"@[0] != "Cancel"@[0]);
}

proof fn lemma_apply_cmds_open(
    m: Map<Seq<char>, ResourceLedgerEntryView>,
    cs: Seq<ResourceCommandView>,
    tx: u32,
    k: Seq<char>,
)
    ensures
        is_open(apply_cmds(m, cs, tx), k) == cmds_open_at(cs, k, is_open(m, k)),
    decreases cs.len(),
{
    lemma_states_distinct();
    if cs.len() > 0 {
        lemma_apply_cmds_open(m, cs.drop_last(), tx, k);
    }
}

proof fn lemma_cmds_open_concat(a: Seq<ResourceCommandView>, b: Seq<ResourceCommandView>, k: Seq<char>, cur: bool)
    ensures
        cmds_open_at(a + b, k, cur) == cmds_open_at(b, k, cmds_open_at(a, k, cur)),
    decreases b.len(),
{
    if b.len() == 0 {
        assert(a + b =~= a);
    } else {
        assert((a + b).drop_last() =~= a + b.drop_last());
        assert((a + b).last() == b.last());
        lemma_cmds_open_concat(a, b.drop_last(), k, cur);
    }
}

proof fn lemma_plan_for_open(
    keys: Seq<Seq<char>>,
    opening: bool,
    ws: Seq<char>,
    revision: Revision,
    label: Seq<char>,
    k: Seq<char>,
    cur: bool,
)
    ensures
        cmds_open_at(plan_for(keys, opening, ws, revision, label), k, cur) == if keys.contains(k) {
            opening
        } else {
            cur
        },
    decreases keys.len(),
{
    lemma_states_distinct();
    reveal_strlit("AnalysisJob(");
    if keys.len() > 0 {
        let rest = keys.drop_last();
        let q = keys.last();
        assert(plan_for(keys, opening, ws, revision, label).drop_last() =~= plan_for(
            rest,
            opening,
            ws,
            revision,
            label,
        ));
        lemma_plan_for_open(rest, opening, ws, revision, label, k, cur);
        assert(keys.contains(k) == (rest.contains(k) || q == k)) by {
            assert(keys =~= rest.push(q));
            crate::strmap::lemma_push_contains(rest, q);
        }
    }
}

/// Resource reconciliation: a ledger that holds open exactly the `before`
/// demand, once the plan from `before` to `after` is applied, holds open
/// exactly the `after` demand.
pub proof fn law_plan_reconciles_resources(
    m: Map<Seq<char>, ResourceLedgerEntryView>,
    before: Set<Seq<char>>,
    after: Set<Seq<char>>,
    ws: Seq<char>,
    revision: Revision,
    label: Seq<char>,
    r: Seq<ResourceCommandView>,
    tx: u32,
)
    requires
        plan_of(before, after, ws, revision, label, r),
        forall|k: Seq<char>| #[trigger] is_open(m, k) <==> before.contains(k),
    ensures
        forall|k: Seq<char>| #[trigger] is_open(apply_cmds(m, r, tx), k) <==> after.contains(k),
{
    let (came, gone) = choose|came: Seq<Seq<char>>, gone: Seq<Seq<char>>|
        {
            &&& sorted(came)
            &&& came.to_set() == after.difference(before)
            &&& sorted(gone)
            &&& gone.to_set() == before.difference(after)
            &&& r == #[trigger] plan_for(came, true, ws, revision, label) + #[trigger] plan_for(
                gone,
                false,
                ws,
                revision,
                label,
            )
        };
    assert forall|k: Seq<char>| #[trigger] is_open(apply_cmds(m, r, tx), k) <==> after.contains(k) by {
        lemma_apply_cmds_open(m, r, tx, k);
        let pc = plan_for(came, true, ws, revision, label);
        let pg = plan_for(gone, false, ws, revision, label);
        lemma_cmds_open_concat(pc, pg, k, is_open(m, k));
        lemma_plan_for_open(came, true, ws, revision, label, k, is_open(m, k));
        lemma_plan_for_open(gone, false, ws, revision, label, k, cmds_open_at(pc, k, is_open(m, k)));
        assert(came.contains(k) == came.to_set().contains(k));
        assert(gone.contains(k) == gone.to_set().contains(k));
    }
}

proof fn lemma_close_op_not_open(k: Seq<char>)
    ensures
        close_op_spec(k) != "Open"@,
{
    reveal_strlit("Open");
    reveal_strlit("Close");
    reveal_strlit("Cancel");
    assert("Open"@.len() != "Close"@.len());
    assert("Open"@.len() != "Cancel"@.len());
}

/// Empty sources fail closed: a plan towards an empty demand opens
/// nothing, and closes (or cancels) exactly the keys demanded before.
pub proof fn law_empty_demand_opens_nothing(
    before: Set<Seq<char>>,
    ws: Seq<char>,
    revision: Revision,
    label: Seq<char>,
    r: Seq<ResourceCommandView>,
)
    requires
        plan_of(before, Set::empty(), ws, revision, label, r),
    ensures
        forall|i: int| 0 <= i < r.len() ==> #[trigger] r[i].op != "Open"@,
        forall|k: Seq<char>| before.contains(k) <==> exists|i: int| 0 <= i < r.len() && #[trigger] r[i].key == k,
{
    let (came, gone) = choose|came: Seq<Seq<char>>, gone: Seq<Seq<char>>|
        {
            &&& sorted(came)
            &&& came.to_set() == Set::<Seq<char>>::empty().difference(before)
            &&& sorted(gone)
            &&& gone.to_set() == before.difference(Set::empty())
            &&& r == #[trigger] plan_for(came, true, ws, revision, label) + #[trigger] plan_for(
                gone,
                false,
                ws,
                revision,
                label,
            )
        };
    if came.len() > 0 {
        assert(came.to_set().contains(came[0]));
    }
    assert(came.len() == 0);
    let pg = plan_for(gone, false, ws, revision, label);
    assert(r =~= pg);
    assert forall|i: int| 0 <= i < r.len() implies #[trigger] r[i].op != "Open"@ by {
        lemma_close_op_not_open(gone[i]);
    }
    assert forall|k: Seq<char>| before.contains(k) <==> exists|i: int| 0 <= i < r.len() && #[trigger] r[i].key == k by {
        if before.contains(k) {
            assert(gone.to_set().contains(k));
            let i = choose|i: int| 0 <= i < gone.len() && gone[i] == k;
            assert(r[i].key == k);
        }
        if exists|i: int| 0 <= i < r.len() && #[trigger] r[i].key == k {
            let i = choose|i: int| 0 <= i < r.len() && #[trigger] r[i].key == k;
            assert(gone[i] == k);
            assert(gone.contains(k));
            assert(gone.to_set().contains(k));
        }
    }
}

// ---------------------------------------------------------------------
// Output frames
// ---------------------------------------------------------------------
/// The diagnostics a derived state holds for a file, none when absent.
pub open spec fn diags_at(f: FullStateView, p: Seq<char>) -> Seq<DiagnosticView> {
    if f.diagnostics_by_file.contains_key(p) {
        f.diagnostics_by_file[p]
    } else {
        Seq::empty()
    }
}

/// The links a derived state holds for a file, none when absent.
pub open spec fn links_at(f: FullStateView, p: Seq<char>) -> Seq<DocumentLinkView> {
    if f.links_by_file.contains_key(p) {
        f.links_by_file[p]
    } else {
        Seq::empty()
    }
}

/// The tokens a derived state holds for a file, none when absent.
pub open spec fn tokens_at(f: FullStateView, p: Seq<char>) -> Seq<SemanticTokenView> {
    if f.tokens_by_file.contains_key(p) {
        f.tokens_by_file[p]
    } else {
        Seq::empty()
    }
}

/// A frame of the given kind for a file, carrying the given payload.
pub open spec fn payload_frame_spec(
    kind: Seq<char>,
    path: Seq<char>,
    revision: Revision,
    d: Seq<DiagnosticView>,
    l: Seq<DocumentLinkView>,
    t: Seq<SemanticTokenView>,
    label: Seq<char>,
) -> OutputFrameView {
    OutputFrameView {
        kind,
        output_key: kind + ":"@ + path,
        scope: file_scope(path),
        revision,
        file_path: Some(path),
        diagnostics: d,
        links: l,
        tokens: t,
        status: None,
        cause: cause_spec(
            "trellis-core transaction"@,
            label,
            kind,
            "trellis-core OutputFrame materialized committed output state"@,
        ),
    }
}

/// The frames that clear every output of a file whose scope closed.
pub open spec fn clear_frames_spec(p: Seq<char>, revision: Revision, label: Seq<char>) -> Seq<OutputFrameView> {
    seq![
        payload_frame_spec("ClearDiagnostics"@, p, revision, Seq::empty(), Seq::empty(), Seq::empty(), label),
        payload_frame_spec("ClearDocumentLinks"@, p, revision, Seq::empty(), Seq::empty(), Seq::empty(), label),
        payload_frame_spec("ClearSemanticTokens"@, p, revision, Seq::empty(), Seq::empty(), Seq::empty(), label),
    ]
}

/// The frames that rebaseline the outputs of a file in the new state:
/// each output of a file new to the source graph, and each output whose
/// value changed.
pub open spec fn file_frames_spec(
    before: FullStateView,
    after: FullStateView,
    p: Seq<char>,
    revision: Revision,
    label: Seq<char>,
) -> Seq<OutputFrameView> {
    let fresh = !before.source_files.contains(p);
    (if fresh || diags_at(before, p) != diags_at(after, p) {
        seq![payload_frame_spec("BaselineDiagnostics"@, p, revision, diags_at(after, p), Seq::empty(), Seq::empty(), label)]
    } else {
        Seq::empty()
    }) + (if fresh || links_at(before, p) != links_at(after, p) {
        seq![payload_frame_spec("BaselineDocumentLinks"@, p, revision, Seq::empty(), links_at(after, p), Seq::empty(), label)]
    } else {
        Seq::empty()
    }) + (if fresh || tokens_at(before, p) != tokens_at(after, p) {
        seq![payload_frame_spec("BaselineSemanticTokens"@, p, revision, Seq::empty(), Seq::empty(), tokens_at(after, p), label)]
    } else {
        Seq::empty()
    })
}

/// The clear frames for the files of `src` that left the graph, in order.
pub open spec fn clears_of(
    src: Seq<Seq<char>>,
    kept: Seq<Seq<char>>,
    revision: Revision,
    label: Seq<char>,
) -> Seq<OutputFrameView>
    decreases src.len(),
{
    if src.len() == 0 {
        Seq::empty()
    } else {
        clears_of(src.drop_last(), kept, revision, label) + if kept.contains(src.last()) {
            Seq::empty()
        } else {
            clear_frames_spec(src.last(), revision, label)
        }
    }
}

/// The rebaseline frames for the given files, in order.
pub open spec fn baselines_of(
    files: Seq<Seq<char>>,
    before: FullStateView,
    after: FullStateView,
    revision: Revision,
    label: Seq<char>,
) -> Seq<OutputFrameView>
    decreases files.len(),
{
    if files.len() == 0 {
        Seq::empty()
    } else {
        baselines_of(files.drop_last(), before, after, revision, label) + file_frames_spec(
            before,
            after,
            files.last(),
            revision,
            label,
        )
    }
}

/// The output frames between two derived states: clears for the files
/// that left the source graph, then rebaselines for the files of the new
/// graph, each in file order.
pub open spec fn output_frames_spec(
    before: FullStateView,
    after: FullStateView,
    revision: Revision,
    label: Seq<char>,
) -> Seq<OutputFrameView> {
    clears_of(before.source_files, after.source_files, revision, label) + baselines_of(
        after.source_files,
        before,
        after,
        revision,
        label,
    )
}

fn diags_of(f: &FullState, p: &str) -> (r: Vec<Diagnostic>)
    ensures
        r.deep_view() == diags_at(f.deep_view(), p@),
{
    match f.diagnostics_by_file.get(p) {
        Some(v) => v.dup(),
        None => {
            let r: Vec<Diagnostic> = Vec::new();
            assert(r.deep_view() =~= Seq::<DiagnosticView>::empty());
            r
        },
    }
}

fn links_of(f: &FullState, p: &str) -> (r: Vec<DocumentLink>)
    ensures
        r.deep_view() == links_at(f.deep_view(), p@),
{
    match f.links_by_file.get(p) {
        Some(v) => v.dup(),
        None => {
            let r: Vec<DocumentLink> = Vec::new();
            assert(r.deep_view() =~= Seq::<DocumentLinkView>::empty());
            r
        },
    }
}

fn tokens_of(f: &FullState, p: &str) -> (r: Vec<SemanticToken>)
    ensures
        r.deep_view() == tokens_at(f.deep_view(), p@),
{
    match f.tokens_by_file.get(p) {
        Some(v) => v.dup(),
        None => {
            let r: Vec<SemanticToken> = Vec::new();
            assert(r.deep_view() =~= Seq::<SemanticTokenView>::empty());
            r
        },
    }
}

/// A frame of the given kind for a file, carrying the given payload.
pub fn payload_frame(
    kind: &str,
    path: &str,
    revision: Revision,
    diagnostics: Vec<Diagnostic>,
    links: Vec<DocumentLink>,
    tokens: Vec<SemanticToken>,
    label: &str,
) -> (r: OutputFrame)
    ensures
        r.deep_view() == payload_frame_spec(
            kind@,
            path@,
            revision,
            diagnostics.deep_view(),
            links.deep_view(),
            tokens.deep_view(),
            label@,
        ),
{
    let mut output_key = owned(kind);
    append(&mut output_key, ":");
    append(&mut output_key, path);
    OutputFrame {
        kind: owned(kind),
        output_key,
        scope: file_scope_of(path),
        revision,
        file_path: Some(owned(path)),
        diagnostics,
        links,
        tokens,
        status: None,
        cause: cause(
            "trellis-core transaction",
            label,
            kind,
            "trellis-core OutputFrame materialized committed output state",
        ),
    }
}

fn empty_frame(kind: &str, path: &str, revision: Revision, label: &str) -> (r: OutputFrame)
    ensures
        r.deep_view() == payload_frame_spec(kind@, path@, revision, Seq::empty(), Seq::empty(), Seq::empty(), label@),
{
    let d: Vec<Diagnostic> = Vec::new();
    let l: Vec<DocumentLink> = Vec::new();
    let t: Vec<SemanticToken> = Vec::new();
    assert(d.deep_view() =~= Seq::<DiagnosticView>::empty());
    assert(l.deep_view() =~= Seq::<DocumentLinkView>::empty());
    assert(t.deep_view() =~= Seq::<SemanticTokenView>::empty());
    payload_frame(kind, path, revision, d, l, t, label)
}

fn push_file_frames(r: &mut Vec<OutputFrame>, before: &FullState, after: &FullState, p: &str, revision: Revision, label: &str)
    ensures
        final(r).deep_view() == old(r).deep_view() + file_frames_spec(
            before.deep_view(),
            after.deep_view(),
            p@,
            revision,
            label@,
        ),
{
    let ghost start = r.deep_view();
    let ghost bv = before.deep_view();
    let ghost av = after.deep_view();
    assert(bv.source_files =~= views(before.source_files@));
    let fresh = !strings_contain(before.source_files.as_slice(), p);
    let db = diags_of(before, p);
    let da = diags_of(after, p);
    if fresh || !db.same_view(&da) {
        let el: Vec<DocumentLink> = Vec::new();
        let et: Vec<SemanticToken> = Vec::new();
        assert(el.deep_view() =~= Seq::<DocumentLinkView>::empty());
        assert(et.deep_view() =~= Seq::<SemanticTokenView>::empty());
        let f = payload_frame("BaselineDiagnostics", p, revision, da, el, et, label);
        r.push(f);
    }
    let ghost r1 = r.deep_view();
    let lb = links_of(before, p);
    let la = links_of(after, p);
    if fresh || !lb.same_view(&la) {
        let ed: Vec<Diagnostic> = Vec::new();
        let et: Vec<SemanticToken> = Vec::new();
        assert(ed.deep_view() =~= Seq::<DiagnosticView>::empty());
        assert(et.deep_view() =~= Seq::<SemanticTokenView>::empty());
        let f = payload_frame("BaselineDocumentLinks", p, revision, ed, la, et, label);
        r.push(f);
    }
    let ghost r2 = r.deep_view();
    let tb = tokens_of(before, p);
    let ta = tokens_of(after, p);
    if fresh || !tb.same_view(&ta) {
        let ed: Vec<Diagnostic> = Vec::new();
        let el: Vec<DocumentLink> = Vec::new();
        assert(ed.deep_view() =~= Seq::<DiagnosticView>::empty());
        assert(el.deep_view() =~= Seq::<DocumentLinkView>::empty());
        let f = payload_frame("BaselineSemanticTokens", p, revision, ed, el, ta, label);
        r.push(f);
    }
    proof {
        let fr = file_frames_spec(bv, av, p@, revision, label@);
        assert(r.deep_view() =~= start + fr);
    }
}

/// The output frames that take consumers of the outputs of `before` to
/// those of `after`.
pub fn output_frames(before: &FullState, after: &FullState, revision: Revision, label: &str) -> (r: Vec<
    OutputFrame,
>)
    ensures
        r.deep_view() == output_frames_spec(before.deep_view(), after.deep_view(), revision, label@),
{
    let ghost bv = before.deep_view();
    let ghost av = after.deep_view();
    assert(bv.source_files =~= views(before.source_files@));
    assert(av.source_files =~= views(after.source_files@));
    let mut r: Vec<OutputFrame> = Vec::new();
    assert(r.deep_view() =~= Seq::<OutputFrameView>::empty());
    let mut i: usize = 0;
    while i < before.source_files.len()
        invariant
            bv == before.deep_view(),
            av == after.deep_view(),
            bv.source_files == views(before.source_files@),
            av.source_files == views(after.source_files@),
            i <= bv.source_files.len(),
            r.deep_view() == clears_of(bv.source_files.take(i as int), av.source_files, revision, label@),
        decreases bv.source_files.len() - i,
    {
        let p = before.source_files[i].as_str();
        let ghost old_r = r.deep_view();
        if !strings_contain(after.source_files.as_slice(), p) {
            r.push(empty_frame("ClearDiagnostics", p, revision, label));
            r.push(empty_frame("ClearDocumentLinks", p, revision, label));
            r.push(empty_frame("ClearSemanticTokens", p, revision, label));
        }
        proof {
            let t = bv.source_files.take(i + 1);
            assert(t.drop_last() =~= bv.source_files.take(i as int));
            assert(t.last() == p@);
            if !av.source_files.contains(p@) {
                assert(r.deep_view() =~= old_r + clear_frames_spec(p@, revision, label@));
            } else {
                assert(r.deep_view() =~= old_r + Seq::<OutputFrameView>::empty());
            }
        }
        i = i + 1;
    }
    assert(bv.source_files.take(bv.source_files.len() as int) =~= bv.source_files);
    let ghost clears = r.deep_view();
    let mut j: usize = 0;
    while j < after.source_files.len()
        invariant
            bv == before.deep_view(),
            av == after.deep_view(),
            av.source_files == views(after.source_files@),
            j <= av.source_files.len(),
            r.deep_view() == clears + baselines_of(av.source_files.take(j as int), bv, av, revision, label@),
        decreases av.source_files.len() - j,
    {
        let p = after.source_files[j].as_str();
        let ghost old_r = r.deep_view();
        push_file_frames(&mut r, before, after, p, revision, label);
        proof {
            let t = av.source_files.take(j + 1);
            assert(t.drop_last() =~= av.source_files.take(j as int));
            assert(t.last() == p@);
            assert(r.deep_view() =~= clears + baselines_of(t, bv, av, revision, label@));
        }
        j = j + 1;
    }
    assert(av.source_files.take(av.source_files.len() as int) =~= av.source_files);
    r
}

// ---------------------------------------------------------------------
// Reconciliation of outputs
// ---------------------------------------------------------------------
/// The value of a map at a key, if any.
pub open spec fn opt_at<V>(m: Map<Seq<char>, V>, p: Seq<char>) -> Option<V> {
    if m.contains_key(p) {
        Some(m[p])
    } else {
        None
    }
}

/// What a consumer holds for one file: its diagnostics, links and tokens.
pub type FileOutputs = (
    Option<Seq<DiagnosticView>>,
    Option<Seq<DocumentLinkView>>,
    Option<Seq<SemanticTokenView>>,
);

/// What an output ledger holds for a file.
pub open spec fn ledger_at(l: OutputLedgerView, p: Seq<char>) -> FileOutputs {
    (opt_at(l.diagnostics_by_file, p), opt_at(l.links_by_file, p), opt_at(l.tokens_by_file, p))
}

/// What a derived state holds for a file.
pub open spec fn full_at(f: FullStateView, p: Seq<char>) -> FileOutputs {
    (opt_at(f.diagnostics_by_file, p), opt_at(f.links_by_file, p), opt_at(f.tokens_by_file, p))
}

/// What one frame does to the outputs held for file `p`.
pub open spec fn frame_at(f: OutputFrameView, p: Seq<char>, cur: FileOutputs) -> FileOutputs {
    if f.file_path == Some(p) {
        (
            if f.kind == "ClearDiagnostics"@ {
                None
            } else if f.kind == "BaselineDiagnostics"@ {
                if f.diagnostics.len() == 0 {
                    None
                } else {
                    Some(f.diagnostics)
                }
            } else {
                cur.0
            },
            if f.kind == "ClearDocumentLinks"@ {
                None
            } else if f.kind == "BaselineDocumentLinks"@ {
                Some(f.links)
            } else {
                cur.1
            },
            if f.kind == "ClearSemanticTokens"@ {
                None
            } else if f.kind == "BaselineSemanticTokens"@ {
                Some(f.tokens)
            } else {
                cur.2
            },
        )
    } else {
        cur
    }
}

/// What a sequence of frames does to the outputs held for file `p`.
pub open spec fn frames_at(fs: Seq<OutputFrameView>, p: Seq<char>, cur: FileOutputs) -> FileOutputs
    decreases fs.len(),
{
    if fs.len() == 0 {
        cur
    } else {
        frame_at(fs.last(), p, frames_at(fs.drop_last(), p, cur))
    }
}

/// A derived state is well formed: its source files are distinct, it holds
/// links and tokens for exactly its source files, and diagnostics only for
/// source files that have some.
pub open spec fn full_wf(f: FullStateView) -> bool {
    &&& f.source_files.no_duplicates()
    &&& forall|p: Seq<char>| #[trigger] f.links_by_file.contains_key(p) <==> f.source_files.contains(p)
    &&& forall|p: Seq<char>| #[trigger] f.tokens_by_file.contains_key(p) <==> f.source_files.contains(p)
    &&& forall|p: Seq<char>|
        #[trigger] f.diagnostics_by_file.contains_key(p) ==> f.source_files.contains(p)
            && f.diagnostics_by_file[p].len() > 0
}

/// The consumer's outputs are those of the derived state.
pub open spec fn outputs_agree(l: OutputLedgerView, f: FullStateView) -> bool {
    &&& l.diagnostics_by_file == f.diagnostics_by_file
    &&& l.links_by_file == f.links_by_file
    &&& l.tokens_by_file == f.tokens_by_file
}

proof fn lemma_kinds_distinct()
    ensures
        "ClearDiagnostics"@ != "BaselineDiagnostics"@,
        "ClearDiagnostics"@ != "ClearDocumentLinks"@,
        "ClearDiagnostics"@ != "BaselineDocumentLinks"@,
        "ClearDiagnostics"@ != "ClearSemanticTokens"@,
        "ClearDiagnostics"@ != "BaselineSemanticTokens"@,
        "BaselineDiagnostics"@ != "ClearDocumentLinks"@,
        "BaselineDiagnostics"@ != "BaselineDocumentLinks"@,
        "BaselineDiagnostics"@ != "ClearSemanticTokens"@,
        "BaselineDiagnostics"@ != "BaselineSemanticTokens"@,
        "ClearDocumentLinks"@ != "BaselineDocumentLinks"@,
        "ClearDocumentLinks"@ != "ClearSemanticTokens"@,
        "ClearDocumentLinks"@ != "BaselineSemanticTokens"@,
        "BaselineDocumentLinks"@ != "ClearSemanticTokens"@,
        "BaselineDocumentLinks"@ != "BaselineSemanticTokens"@,
        "ClearSemanticTokens"@ != "BaselineSemanticTokens"@,
{
    reveal_strlit("ClearDiagnostics");
    reveal_strlit("BaselineDiagnostics");
    reveal_strlit("ClearDocumentLinks");
    reveal_strlit("BaselineDocumentLinks");
    reveal_strlit("ClearSemanticTokens");
    reveal_strlit("BaselineSemanticTokens");
    assert("ClearDiagnostics"@[0] != "BaselineDiagnostics"@[0]);
    assert("ClearDiagnostics"@.len() != "ClearDocumentLinks"@.len());
    assert("ClearDiagnostics"@[0] != "BaselineDocumentLinks"@[0]);
    assert("ClearDiagnostics"@[5] != "ClearSemanticTokens"@[5]);
    assert("ClearDiagnostics"@[0] != "BaselineSemanticTokens"@[0]);
    assert("BaselineDiagnostics"@[0] != "ClearDocumentLinks"@[0]);
    assert("BaselineDiagnostics"@[9] != "BaselineDocumentLinks"@[9]);
    assert("BaselineDiagnostics"@[0] != "ClearSemanticTokens"@[0]);
    assert("BaselineDiagnostics"@[8] != "BaselineSemanticTokens"@[8]);
    assert("ClearDocumentLinks"@[0] != "BaselineDocumentLinks"@[0]);
    assert("ClearDocumentLinks"@[5] != "ClearSemanticTokens"@[5]);
    assert("ClearDocumentLinks"@[0] != "BaselineSemanticTokens"@[0]);
    assert("BaselineDocumentLinks"@[0] != "ClearSemanticTokens"@[0]);
    assert("BaselineDocumentLinks"@[8] != "BaselineSemanticTokens"@[8]);
    assert("ClearSemanticTokens"@[0] != "BaselineSemanticTokens"@[0]);
}

proof fn lemma_apply_frame_at(l: OutputLedgerView, f: OutputFrameView, p: Seq<char>)
    ensures
        ledger_at(apply_frame(l, f), p) == frame_at(f, p, ledger_at(l, p)),
{
    lemma_kinds_distinct();
}

proof fn lemma_apply_frames_at(l: OutputLedgerView, fs: Seq<OutputFrameView>, p: Seq<char>)
    ensures
        ledger_at(apply_frames(l, fs), p) == frames_at(fs, p, ledger_at(l, p)),
    decreases fs.len(),
{
    if fs.len() > 0 {
        lemma_apply_frames_at(l, fs.drop_last(), p);
        lemma_apply_frame_at(apply_frames(l, fs.drop_last()), fs.last(), p);
    }
}

proof fn lemma_frames_at_concat(a: Seq<OutputFrameView>, b: Seq<OutputFrameView>, p: Seq<char>, cur: FileOutputs)
    ensures
        frames_at(a + b, p, cur) == frames_at(b, p, frames_at(a, p, cur)),
    decreases b.len(),
{
    if b.len() == 0 {
        assert(a + b =~= a);
    } else {
        assert((a + b).drop_last() =~= a + b.drop_last());
        assert((a + b).last() == b.last());
        lemma_frames_at_concat(a, b.drop_last(), p, cur);
    }
}

proof fn lemma_clear_frames_at(q: Seq<char>, p: Seq<char>, revision: Revision, label: Seq<char>, cur: FileOutputs)
    ensures
        frames_at(clear_frames_spec(q, revision, label), p, cur) == if q == p {
            (None, None, None)
        } else {
            cur
        },
{
    lemma_kinds_distinct();
    let fs = clear_frames_spec(q, revision, label);
    let f0 = fs[0];
    let f1 = fs[1];
    let f2 = fs[2];
    assert(fs.drop_last() =~= seq![f0, f1]);
    assert(seq![f0, f1].drop_last() =~= seq![f0]);
    lemma_frames_at_single(f0, p, cur);
    assert(frames_at(seq![f0, f1], p, cur) == frame_at(f1, p, frame_at(f0, p, cur)));
    assert(frames_at(fs, p, cur) == frame_at(f2, p, frame_at(f1, p, frame_at(f0, p, cur))));
}

proof fn lemma_frames_at_single(f: OutputFrameView, p: Seq<char>, cur: FileOutputs)
    ensures
        frames_at(seq![f], p, cur) == frame_at(f, p, cur),
        frames_at(Seq::empty(), p, cur) == cur,
{
    let e = Seq::<OutputFrameView>::empty();
    assert(frames_at(e, p, cur) == cur);
    assert(seq![f].drop_last() =~= e);
    assert(seq![f].last() == f);
}

/// What rebaselining file `p` does to the outputs held for it.
pub open spec fn file_effect(before: FullStateView, after: FullStateView, p: Seq<char>, cur: FileOutputs) -> FileOutputs {
    let fresh = !before.source_files.contains(p);
    (
        if fresh || diags_at(before, p) != diags_at(after, p) {
            if diags_at(after, p).len() == 0 {
                None
            } else {
                Some(diags_at(after, p))
            }
        } else {
            cur.0
        },
        if fresh || links_at(before, p) != links_at(after, p) {
            Some(links_at(after, p))
        } else {
            cur.1
        },
        if fresh || tokens_at(before, p) != tokens_at(after, p) {
            Some(tokens_at(after, p))
        } else {
            cur.2
        },
    )
}

proof fn lemma_file_frames_at(
    before: FullStateView,
    after: FullStateView,
    q: Seq<char>,
    p: Seq<char>,
    revision: Revision,
    label: Seq<char>,
    cur: FileOutputs,
)
    ensures
        frames_at(file_frames_spec(before, after, q, revision, label), p, cur) == if q == p {
            file_effect(before, after, p, cur)
        } else {
            cur
        },
{
    lemma_kinds_distinct();
    let fresh = !before.source_files.contains(q);
    let e = Seq::<OutputFrameView>::empty();
    let fd = if fresh || diags_at(before, q) != diags_at(after, q) {
        seq![payload_frame_spec("BaselineDiagnostics"@, q, revision, diags_at(after, q), Seq::empty(), Seq::empty(), label)]
    } else {
        e
    };
    let fl = if fresh || links_at(before, q) != links_at(after, q) {
        seq![payload_frame_spec("BaselineDocumentLinks"@, q, revision, Seq::empty(), links_at(after, q), Seq::empty(), label)]
    } else {
        e
    };
    let ft = if fresh || tokens_at(before, q) != tokens_at(after, q) {
        seq![payload_frame_spec("BaselineSemanticTokens"@, q, revision, Seq::empty(), Seq::empty(), tokens_at(after, q), label)]
    } else {
        e
    };
    assert(file_frames_spec(before, after, q, revision, label) == fd + fl + ft);
    lemma_frames_at_concat(fd + fl, ft, p, cur);
    lemma_frames_at_concat(fd, fl, p, cur);
    let c1 = frames_at(fd, p, cur);
    let c2 = frames_at(fl, p, c1);
    if fd.len() > 0 {
        lemma_frames_at_single(fd[0], p, cur);
        assert(fd =~= seq![fd[0]]);
    } else {
        lemma_frames_at_single(payload_frame_spec("BaselineDiagnostics"@, q, revision, diags_at(after, q), Seq::empty(), Seq::empty(), label), p, cur);
    }
    if fl.len() > 0 {
        lemma_frames_at_single(fl[0], p, c1);
        assert(fl =~= seq![fl[0]]);
    } else {
        lemma_frames_at_single(payload_frame_spec("BaselineDocumentLinks"@, q, revision, Seq::empty(), links_at(after, q), Seq::empty(), label), p, c1);
    }
    if ft.len() > 0 {
        lemma_frames_at_single(ft[0], p, c2);
        assert(ft =~= seq![ft[0]]);
    } else {
        lemma_frames_at_single(payload_frame_spec("BaselineSemanticTokens"@, q, revision, Seq::empty(), Seq::empty(), tokens_at(after, q), label), p, c2);
    }
}

proof fn lemma_clears_of_at(
    src: Seq<Seq<char>>,
    kept: Seq<Seq<char>>,
    p: Seq<char>,
    revision: Revision,
    label: Seq<char>,
    cur: FileOutputs,
)
    ensures
        frames_at(clears_of(src, kept, revision, label), p, cur) == if src.contains(p) && !kept.contains(p) {
            (None, None, None)
        } else {
            cur
        },
    decreases src.len(),
{
    if src.len() > 0 {
        let rest = src.drop_last();
        let q = src.last();
        lemma_clears_of_at(rest, kept, p, revision, label, cur);
        let tail = if kept.contains(q) {
            Seq::<OutputFrameView>::empty()
        } else {
            clear_frames_spec(q, revision, label)
        };
        lemma_frames_at_concat(clears_of(rest, kept, revision, label), tail, p, cur);
        let mid = frames_at(clears_of(rest, kept, revision, label), p, cur);
        if !kept.contains(q) {
            lemma_clear_frames_at(q, p, revision, label, mid);
        }
        assert(src.contains(p) == (rest.contains(p) || q == p)) by {
            assert(src =~= rest.push(q));
            crate::strmap::lemma_push_contains(rest, q);
        }
    }
}

proof fn lemma_baselines_of_at(
    files: Seq<Seq<char>>,
    before: FullStateView,
    after: FullStateView,
    p: Seq<char>,
    revision: Revision,
    label: Seq<char>,
    cur: FileOutputs,
)
    ensures
        frames_at(baselines_of(files, before, after, revision, label), p, cur) == if files.contains(p) {
            file_effect(before, after, p, cur)
        } else {
            cur
        },
    decreases files.len(),
{
    if files.len() > 0 {
        let rest = files.drop_last();
        let q = files.last();
        lemma_baselines_of_at(rest, before, after, p, revision, label, cur);
        lemma_frames_at_concat(
            baselines_of(rest, before, after, revision, label),
            file_frames_spec(before, after, q, revision, label),
            p,
            cur,
        );
        let mid = frames_at(baselines_of(rest, before, after, revision, label), p, cur);
        lemma_file_frames_at(before, after, q, p, revision, label, mid);
        assert(files.contains(p) == (rest.contains(p) || q == p)) by {
            assert(files =~= rest.push(q));
            crate::strmap::lemma_push_contains(rest, q);
        }
    }
}

/// Output reconciliation: a consumer that holds the outputs of one well
/// formed derived state, and applies the output frames between it and
/// another, holds the outputs of the other.
pub proof fn law_frames_reconcile_outputs(
    l: OutputLedgerView,
    before: FullStateView,
    after: FullStateView,
    revision: Revision,
    label: Seq<char>,
)
    requires
        full_wf(before),
        full_wf(after),
        outputs_agree(l, before),
    ensures
        outputs_agree(apply_frames(l, output_frames_spec(before, after, revision, label)), after),
{
    let fs = output_frames_spec(before, after, revision, label);
    let cl = clears_of(before.source_files, after.source_files, revision, label);
    let bl = baselines_of(after.source_files, before, after, revision, label);
    let r = apply_frames(l, fs);
    assert forall|p: Seq<char>| #[trigger] ledger_at(r, p) == full_at(after, p) by {
        lemma_apply_frames_at(l, fs, p);
        lemma_frames_at_concat(cl, bl, p, ledger_at(l, p));
        assert(ledger_at(l, p) == full_at(before, p));
        lemma_clears_of_at(before.source_files, after.source_files, p, revision, label, full_at(before, p));
        let mid = frames_at(cl, p, full_at(before, p));
        lemma_baselines_of_at(after.source_files, before, after, p, revision, label, mid);
        if after.source_files.contains(p) {
            assert(mid == full_at(before, p));
            assert(after.links_by_file.contains_key(p));
            assert(after.tokens_by_file.contains_key(p));
            if before.source_files.contains(p) {
                assert(before.links_by_file.contains_key(p));
                assert(before.tokens_by_file.contains_key(p));
            }
            if after.diagnostics_by_file.contains_key(p) {
                assert(after.diagnostics_by_file[p].len() > 0);
            }
            if before.diagnostics_by_file.contains_key(p) {
                assert(before.diagnostics_by_file[p].len() > 0);
            }
        } else {
            if after.links_by_file.contains_key(p) {
            }
            if after.tokens_by_file.contains_key(p) {
            }
            if after.diagnostics_by_file.contains_key(p) {
            }
            if !before.source_files.contains(p) {
                if before.links_by_file.contains_key(p) {
                }
                if before.tokens_by_file.contains_key(p) {
                }
                if before.diagnostics_by_file.contains_key(p) {
                }
            }
        }
    }
    assert(r.diagnostics_by_file =~= after.diagnostics_by_file) by {
        assert forall|p: Seq<char>| #[trigger] r.diagnostics_by_file.contains_key(p) <==> after.diagnostics_by_file.contains_key(p) by {
            assert(ledger_at(r, p) == full_at(after, p));
        }
        assert forall|p: Seq<char>| r.diagnostics_by_file.contains_key(p) implies #[trigger] r.diagnostics_by_file[p] == after.diagnostics_by_file[p] by {
            assert(ledger_at(r, p) == full_at(after, p));
        }
    }
    assert(r.links_by_file =~= after.links_by_file) by {
        assert forall|p: Seq<char>| #[trigger] r.links_by_file.contains_key(p) <==> after.links_by_file.contains_key(p) by {
            assert(ledger_at(r, p) == full_at(after, p));
        }
        assert forall|p: Seq<char>| r.links_by_file.contains_key(p) implies #[trigger] r.links_by_file[p] == after.links_by_file[p] by {
            assert(ledger_at(r, p) == full_at(after, p));
        }
    }
    assert(r.tokens_by_file =~= after.tokens_by_file) by {
        assert forall|p: Seq<char>| #[trigger] r.tokens_by_file.contains_key(p) <==> after.tokens_by_file.contains_key(p) by {
            assert(ledger_at(r, p) == full_at(after, p));
        }
        assert forall|p: Seq<char>| r.tokens_by_file.contains_key(p) implies #[trigger] r.tokens_by_file[p] == after.tokens_by_file[p] by {
            assert(ledger_at(r, p) == full_at(after, p));
        }
    }
}

} // verus!
