//! What the duel shows: one row per attachment, the tallies of each side,
//! and the explanation of one attachment.
use vstd::prelude::*;
use crate::dup::Dup;
use crate::duel::sim::{count_in, short_key, short_key_spec};
use crate::strmap::{lemma_ordered, ordered};
use crate::duel::types::{AttachmentRow, AttachmentRowView, ChatInputs, ChatInputsView, Receipt, ReceiptStep, ReceiptStepView, ReceiptView, SideStats, SideStatsView};
use crate::strmap::{views, StrMap, StrSet};
use crate::text::{append, join, join_strings, owned};

verus! {

// ---------------------------------------------------------------------
// Rows
// ---------------------------------------------------------------------
/// The row of an attachment key.
pub open spec fn row_spec(
    k: Seq<char>,
    should: Set<Seq<char>>,
    naive: Map<Seq<char>, u32>,
    trellis: Map<Seq<char>, u32>,
) -> AttachmentRowView {
    AttachmentRowView {
        key: k,
        label: short_key_spec(k),
        should_open: should.contains(k),
        naive_open: count_in(naive, k) as u32,
        trellis_open: count_in(trellis, k) as u32,
    }
}

/// One row for each key that is desired or open on either side, in key
/// order.
pub open spec fn rows_spec(
    should: Set<Seq<char>>,
    naive: Map<Seq<char>, u32>,
    trellis: Map<Seq<char>, u32>,
) -> Seq<AttachmentRowView> {
    let keys = ordered(should.union(naive.dom()).union(trellis.dom()));
    Seq::new(keys.len(), |i: int| row_spec(keys[i], should, naive, trellis))
}

fn count_of(m: &StrMap<u32>, k: &str) -> (r: u32)
    ensures
        r == count_in(m@, k@),
{
    match m.get(k) {
        Some(v) => *v,
        None => 0,
    }
}

fn add_keys(set: &mut StrSet, m: &StrMap<u32>)
    ensures
        final(set)@ == old(set)@.union(m@.dom()),
{
    m.lemma_keys();
    let mut i: usize = 0;
    while i < m.len()
        invariant
            i <= m.keys().len(),
            m@.dom() == m.keys().to_set(),
            set@ == old(set)@.union(m.keys().take(i as int).to_set()),
        decreases m.keys().len() - i,
    {
        let ghost q = m.keys();
        proof {
            q.take(i as int).lemma_push_to_set_commute(q[i as int]);
            assert(q.take(i + 1) =~= q.take(i as int).push(q[i as int]));
        }
        set.insert(m.key_at(i).dup());
        assert(set@ =~= old(set)@.union(q.take(i + 1).to_set()));
        i = i + 1;
    }
    assert(m.keys().take(i as int) =~= m.keys());
}

/// One row for each key that is desired or open on either side.
pub fn rows(should: &StrSet, naive: &StrMap<u32>, trellis: &StrMap<u32>) -> (r: Vec<AttachmentRow>)
    ensures
        r.deep_view() == rows_spec(should@, naive@, trellis@),
{
    let mut keys = should.dup();
    add_keys(&mut keys, naive);
    add_keys(&mut keys, trellis);
    keys.lemma_elems();
    proof {
        lemma_ordered(keys.elems());
    }
    let ghost ks = keys.elems();
    assert(ks == ordered(should@.union(naive@.dom()).union(trellis@.dom())));
    let mut r: Vec<AttachmentRow> = Vec::new();
    let mut i: usize = 0;
    while i < keys.len()
        invariant
            i <= ks.len(),
            ks == keys.elems(),
            r.deep_view().len() == i,
            forall|j: int| 0 <= j < i ==> #[trigger] r.deep_view()[j] == row_spec(ks[j], should@, naive@, trellis@),
        decreases ks.len() - i,
    {
        let key = keys.elem_at(i);
        let row = AttachmentRow {
            key: key.dup(),
            label: short_key(key.as_str()),
            should_open: should.contains(key.as_str()),
            naive_open: count_of(naive, key.as_str()),
            trellis_open: count_of(trellis, key.as_str()),
        };
        let ghost prev = r.deep_view();
        r.push(row);
        assert(r.deep_view() =~= prev.push(row_spec(ks[i as int], should@, naive@, trellis@)));
        i = i + 1;
    }
    assert(r.deep_view() =~= rows_spec(should@, naive@, trellis@));
    r
}

// ---------------------------------------------------------------------
// Tallies
// ---------------------------------------------------------------------
/// The sum of the counts.
pub open spec fn total(s: Seq<u32>) -> int
    decreases s.len(),
{
    if s.len() == 0 {
        0
    } else {
        total(s.drop_last()) + s.last()
    }
}

/// The handles beyond the first, summed over the counts.
pub open spec fn excess(s: Seq<u32>) -> int
    decreases s.len(),
{
    if s.len() == 0 {
        0
    } else {
        excess(s.drop_last()) + if s.last() >= 1 { s.last() - 1 } else { 0 }
    }
}

/// How many of the keys lie outside the set.
pub open spec fn outside(ks: Seq<Seq<char>>, s: Set<Seq<char>>) -> int
    decreases ks.len(),
{
    if ks.len() == 0 {
        0
    } else {
        outside(ks.drop_last(), s) + if s.contains(ks.last()) { 0int } else { 1int }
    }
}

/// The tallies of a side whose open handles are the counts `vals` of the
/// keys `keys`, against the desired set; `ok` is the verdict when nothing
/// drifts.
pub open spec fn stats_spec(
    keys: Seq<Seq<char>>,
    vals: Seq<u32>,
    should: Set<Seq<char>>,
    ok: Seq<char>,
) -> SideStatsView {
    let actual = total(vals);
    let orphaned = outside(keys, should);
    let duplicates = excess(vals);
    let delta = actual - should.len();
    SideStatsView {
        open: actual as u32,
        should_open: should.len() as u32,
        delta: delta as i32,
        orphaned: orphaned as u32,
        duplicate_handles: duplicates as u32,
        verdict: if delta == 0 && orphaned == 0 && duplicates == 0 {
            ok
        } else {
            "drifting"@
        },
    }
}

/// The tallies of a side whose handle ledger is `m`.
pub open spec fn map_stats(m: Map<Seq<char>, u32>, should: Set<Seq<char>>, ok: Seq<char>) -> SideStatsView {
    let keys = ordered(m.dom());
    stats_spec(keys, Seq::new(keys.len(), |i: int| m[keys[i]]), should, ok)
}

/// Counts of at most `c` sum to at most `c` times their number.
pub proof fn lemma_total_bound(s: Seq<u32>, c: int)
    requires
        0 <= c,
        forall|i: int| 0 <= i < s.len() ==> s[i] <= c,
    ensures
        total(s) <= s.len() * c,
    decreases s.len(),
{
    if s.len() > 0 {
        lemma_total_bound(s.drop_last(), c);
        let n = s.len() as int;
        let t = total(s.drop_last());
        assert(t + s.last() <= n * c) by (nonlinear_arith)
            requires
                t <= (n - 1) * c,
                s.last() <= c,
        ;
    }
}

proof fn lemma_all_ones(vs: Seq<u32>)
    requires
        forall|i: int| 0 <= i < vs.len() ==> vs[i] == 1,
    ensures
        total(vs) == vs.len(),
        excess(vs) == 0,
    decreases vs.len(),
{
    if vs.len() > 0 {
        lemma_all_ones(vs.drop_last());
    }
}

proof fn lemma_none_outside(ks: Seq<Seq<char>>, s: Set<Seq<char>>)
    requires
        forall|i: int| 0 <= i < ks.len() ==> s.contains(ks[i]),
    ensures
        outside(ks, s) == 0,
    decreases ks.len(),
{
    if ks.len() > 0 {
        lemma_none_outside(ks.drop_last(), s);
    }
}

/// A ledger holding one handle for each desired key and nothing else
/// tallies as reconciled: as many handles as desired keys, no difference,
/// no orphan, no duplicate, and the verdict `ok`.
pub proof fn law_counted_ledger_is_reconciled(should: Set<Seq<char>>, ok: Seq<char>)
    requires
        should.finite(),
        should.len() <= i32::MAX,
    ensures
        map_stats(crate::duel::sim::counted_spec(should), should, ok).open == should.len(),
        map_stats(crate::duel::sim::counted_spec(should), should, ok).should_open == should.len(),
        map_stats(crate::duel::sim::counted_spec(should), should, ok).delta == 0,
        map_stats(crate::duel::sim::counted_spec(should), should, ok).orphaned == 0,
        map_stats(crate::duel::sim::counted_spec(should), should, ok).duplicate_handles == 0,
        map_stats(crate::duel::sim::counted_spec(should), should, ok).verdict == ok,
{
    let m = crate::duel::sim::counted_spec(should);
    assert(m.dom() =~= should);
    crate::strmap::lemma_ordered_finite(should);
    let keys = ordered(m.dom());
    let vals = Seq::new(keys.len(), |i: int| m[keys[i]]);
    assert forall|i: int| 0 <= i < keys.len() implies should.contains(keys[i]) by {
        assert(keys.contains(keys[i]));
        assert(keys.to_set().contains(keys[i]));
    }
    lemma_all_ones(vals);
    lemma_none_outside(keys, should);
    crate::strmap::lemma_sorted_no_dup(keys);
    keys.unique_seq_to_set();
}

proof fn lemma_tallies_bounded(ks: Seq<Seq<char>>, vs: Seq<u32>, s: Set<Seq<char>>)
    ensures
        0 <= excess(vs) <= total(vs),
        0 <= outside(ks, s) <= ks.len(),
        0 <= total(vs),
    decreases vs.len() + ks.len(),
{
    if vs.len() > 0 {
        lemma_tallies_bounded(ks, vs.drop_last(), s);
    }
    if ks.len() > 0 {
        lemma_tallies_bounded(ks.drop_last(), vs, s);
    }
}

proof fn lemma_total_prefix(vs: Seq<u32>, j: int)
    requires
        0 <= j <= vs.len(),
    ensures
        total(vs.take(j)) <= total(vs),
    decreases vs.len(),
{
    if j < vs.len() {
        lemma_total_prefix(vs.drop_last(), j);
        assert(vs.drop_last().take(j) =~= vs.take(j));
    } else {
        assert(vs.take(j) =~= vs);
    }
}

/// The tallies of one side: handles open, handles desired, their
/// difference, keys open but not desired, and handles beyond the first.
pub fn stats(open: &StrMap<u32>, should: &StrSet, ok_word: &str) -> (r: SideStats)
    requires
        total(open.vals()) <= i32::MAX,
        should@.len() <= i32::MAX,
    ensures
        r.deep_view() == stats_spec(open.keys(), open.vals(), should@, ok_word@),
        r.deep_view() == map_stats(open@, should@, ok_word@),
{
    open.lemma_keys();
    proof {
        lemma_ordered(open.keys());
        assert(open.vals() =~= Seq::new(open.keys().len(), |i: int| open@[open.keys()[i]]));
    }
    should.lemma_elems();
    let ghost ks = open.keys();
    let ghost vs = open.vals();
    let mut actual: u32 = 0;
    let mut orphaned: usize = 0;
    let mut duplicates: u32 = 0;
    let mut i: usize = 0;
    proof {
        lemma_tallies_bounded(ks, vs, should@);
    }
    while i < open.len()
        invariant
            i <= ks.len(),
            ks.len() == vs.len(),
            ks == open.keys(),
            vs == open.vals(),
            total(vs) <= i32::MAX,
            actual == total(vs.take(i as int)),
            duplicates == excess(vs.take(i as int)),
            orphaned == outside(ks.take(i as int), should@),
            orphaned <= i,
        decreases ks.len() - i,
    {
        let v = *open.val_at(i);
        let key = open.key_at(i);
        proof {
            assert(vs.take(i + 1).drop_last() =~= vs.take(i as int));
            assert(ks.take(i + 1).drop_last() =~= ks.take(i as int));
            lemma_total_prefix(vs, i + 1);
            lemma_tallies_bounded(ks.take(i + 1), vs.take(i + 1), should@);
        }
        actual = actual + v;
        duplicates = duplicates + if v >= 1 { v - 1 } else { 0 };
        if !should.contains(key.as_str()) {
            orphaned = orphaned + 1;
        }
        i = i + 1;
    }
    proof {
        assert(vs.take(i as int) =~= vs);
        assert(ks.take(i as int) =~= ks);
    }
    let wanted = should.len();
    let delta: i32 = (actual as i32) - (wanted as i32);
    let clean = delta == 0 && orphaned == 0 && duplicates == 0;
    SideStats {
        open: actual,
        should_open: wanted as u32,
        delta,
        orphaned: orphaned as u32,
        duplicate_handles: duplicates,
        verdict: if clean { owned(ok_word) } else { owned("drifting") },
    }
}

// ---------------------------------------------------------------------
// Receipt
// ---------------------------------------------------------------------
/// What std's `Debug` writes for a string slice: the text in double
/// quotes, with quotes, backslashes and unprintable characters escaped.
pub uninterp spec fn debug_str_text(s: Seq<char>) -> Seq<char>;

/// Formats a string slice with std's `Debug` (`<str as Debug>::fmt`).
///
/// Trusted: the contract only names the result, as a function of the text
/// alone; how std escapes characters is not stated.
#[verifier::external_body]
fn debug_str(s: &str) -> (r: String)
    ensures
        r@ == debug_str_text(s@),
{
    format!("{:?}", s)
}

/// The `Debug` text of each element.
pub open spec fn quoted_spec(q: Seq<Seq<char>>) -> Seq<Seq<char>> {
    Seq::new(q.len(), |i: int| debug_str_text(q[i]))
}

/// How std's `Debug` writes a set whose elements, in order, have the given
/// `Debug` texts: in braces, separated by a comma and a space.
pub open spec fn set_text_spec(items: Seq<Seq<char>>) -> Seq<char> {
    "{"@ + join(items, ", "@) + "}"@
}

/// The `Debug` text of a set, from the `Debug` texts of its elements.
pub fn set_text(items: &[String]) -> (r: String)
    ensures
        r@ == set_text_spec(views(items@)),
{
    let mut r = owned("{");
    let inner = join_strings(items, ", ");
    append(&mut r, inner.as_str());
    append(&mut r, "}");
    r
}

fn quoted(s: &StrSet) -> (r: Vec<String>)
    ensures
        views(r@) == quoted_spec(s.elems()),
{
    let mut r: Vec<String> = Vec::new();
    let mut i: usize = 0;
    while i < s.len()
        invariant
            i <= s.elems().len(),
            views(r@) == quoted_spec(s.elems().take(i as int)),
        decreases s.elems().len() - i,
    {
        let ghost prev = r@;
        let t = debug_str(s.elem_at(i).as_str());
        r.push(t);
        assert(views(r@) =~= views(prev).push(t@));
        assert(quoted_spec(s.elems().take(i + 1)) =~= quoted_spec(s.elems().take(i as int)).push(
            debug_str_text(s.elems()[i as int]),
        ));
        i = i + 1;
    }
    assert(s.elems().take(i as int) =~= s.elems());
    r
}

/// `true` or `false`.
pub open spec fn bool_text(b: bool) -> Seq<char> {
    if b {
        "true"@
    } else {
        "false"@
    }
}

/// The inputs, in words: the workspace, the rooms, grants and follows as
/// std's `Debug` writes an ordered set, and whether the network is up.
pub open spec fn inputs_text_spec(i: ChatInputsView) -> Seq<char> {
    "workspace="@ + i.workspace + ", rooms="@ + set_text_spec(quoted_spec(ordered(i.joined_rooms)))
        + ", grants="@ + set_text_spec(quoted_spec(ordered(i.permission_grants))) + ", follows="@
        + set_text_spec(quoted_spec(ordered(i.follows))) + ", online="@ + bool_text(i.network_online)
}

fn set_of(s: &StrSet) -> (r: String)
    ensures
        r@ == set_text_spec(quoted_spec(ordered(s@))),
{
    s.lemma_elems();
    proof {
        lemma_ordered(s.elems());
    }
    let q = quoted(s);
    set_text(q.as_slice())
}

/// The inputs, in words.
pub fn inputs_text(inputs: &ChatInputs) -> (r: String)
    ensures
        r@ == inputs_text_spec(inputs.deep_view()),
{
    let mut r = owned("workspace=");
    append(&mut r, inputs.workspace.as_str());
    append(&mut r, ", rooms=");
    let rooms = set_of(&inputs.joined_rooms);
    append(&mut r, rooms.as_str());
    append(&mut r, ", grants=");
    let grants = set_of(&inputs.permission_grants);
    append(&mut r, grants.as_str());
    append(&mut r, ", follows=");
    let follows = set_of(&inputs.follows);
    append(&mut r, follows.as_str());
    append(&mut r, ", online=");
    if inputs.network_online {
        append(&mut r, "true");
    } else {
        append(&mut r, "false");
    }
    r
}

/// The explanation of a key: whether the desired set holds it, from which
/// inputs, and the last command the plan issued for it.
pub open spec fn receipt_spec(
    key: Seq<char>,
    input_text: Seq<char>,
    should: Set<Seq<char>>,
    actions: Map<Seq<char>, Seq<char>>,
) -> ReceiptView {
    let present = should.contains(key);
    ReceiptView {
        key,
        title: if present {
            "why Trellis keeps this open"@
        } else {
            "why Trellis does not keep this open"@
        },
        status: if present {
            "owned"@
        } else {
            "not-owned"@
        },
        steps: seq![
            ReceiptStepView { label: "canonical input"@, detail: input_text },
            ReceiptStepView {
                label: "derived collection"@,
                detail: "desiredAttachments "@ + (if present {
                    "contains"@
                } else {
                    "does not contain"@
                }) + " "@ + key,
            },
            ReceiptStepView {
                label: "resource plan"@,
                detail: if actions.contains_key(key) {
                    actions[key]
                } else {
                    "no open command in the current desired set"@
                },
            },
        ],
    }
}

/// The explanation of a key, given the inputs in words.
pub fn receipt_with(key: &str, input_text: &str, should: &StrSet, last_action: &StrMap<String>) -> (r: Receipt)
    ensures
        r.deep_view() == receipt_spec(key@, input_text@, should@, last_action@),
{
    let present = should.contains(key);
    let action = match last_action.get(key) {
        Some(a) => a.dup(),
        None => owned("no open command in the current desired set"),
    };
    let mut collection = owned("desiredAttachments ");
    if present {
        append(&mut collection, "contains");
    } else {
        append(&mut collection, "does not contain");
    }
    append(&mut collection, " ");
    append(&mut collection, key);
    let mut steps: Vec<ReceiptStep> = Vec::new();
    steps.push(ReceiptStep { label: owned("canonical input"), detail: owned(input_text) });
    steps.push(ReceiptStep { label: owned("derived collection"), detail: collection });
    steps.push(ReceiptStep { label: owned("resource plan"), detail: action });
    let r = Receipt {
        key: owned(key),
        title: if present {
            owned("why Trellis keeps this open")
        } else {
            owned("why Trellis does not keep this open")
        },
        status: if present {
            owned("owned")
        } else {
            owned("not-owned")
        },
        steps,
    };
    assert(r.deep_view().steps =~= receipt_spec(key@, input_text@, should@, last_action@).steps);
    r
}

/// The explanation of a key.
pub fn receipt_for(key: &str, inputs: &ChatInputs, should: &StrSet, last_action: &StrMap<String>) -> (r: Receipt)
    ensures
        r.deep_view() == receipt_spec(key@, inputs_text_spec(inputs.deep_view()), should@, last_action@),
{
    let text = inputs_text(inputs);
    receipt_with(key, text.as_str(), should, last_action)
}

} // verus!
