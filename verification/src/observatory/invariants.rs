//! The invariants a reconciled state is checked against after each
//! transaction.
use vstd::prelude::*;
use crate::dup::SameView;
use crate::observatory::types::{
    FullState, FullStateView, InvariantCheck, InvariantCheckView, OutputLedger,
    ResourceLedgerEntry, ResourceLedgerEntryView,
};
use crate::observatory::ledger::ledger_keyed;
use crate::observatory::projection::{full_wf, is_open, outputs_agree};
use crate::strmap::{lemma_map_keys, sorted, strings_contain, views, StrMap};
use crate::text::{join, join_strings, owned, replace_all, replace_str, starts_with, str_eq, str_starts_with};

verus! {

/// A check that passes with empty details, or fails with the given ones.
pub open spec fn pass_fail_spec(id: Seq<char>, label: Seq<char>, ok: bool, details: Seq<char>) -> InvariantCheckView {
    InvariantCheckView {
        id,
        label,
        status: if ok {
            "pass"@
        } else {
            "fail"@
        },
        details: if ok {
            Seq::empty()
        } else {
            details
        },
    }
}

/// A passing or failing check.
pub fn pass_fail(id: &str, label: &str, ok: bool, details: &str) -> (r: InvariantCheck)
    ensures
        r.deep_view() == pass_fail_spec(id@, label@, ok, details@),
{
    InvariantCheck {
        id: owned(id),
        label: owned(label),
        status: if ok {
            owned("pass")
        } else {
            owned("fail")
        },
        details: if ok {
            String::new()
        } else {
            owned(details)
        },
    }
}

/// The output keys that name no source file, in order.
pub open spec fn stale_keys(source: Seq<Seq<char>>, keys: Seq<Seq<char>>) -> Seq<Seq<char>> {
    keys.filter(|k: Seq<char>| !source.contains(k))
}

/// The check that no output of the labelled kind remains for a file that
/// left the source graph.
pub open spec fn removed_outputs_spec(label: Seq<char>, source: Seq<Seq<char>>, keys: Seq<Seq<char>>) -> InvariantCheckView {
    let stale = stale_keys(source, keys);
    pass_fail_spec(
        replace_all("no-"@ + label + "-for-removed-files"@, " "@, "-"@),
        "no "@ + label + " for removed files"@,
        stale.len() == 0,
        "Stale "@ + label + " remain for "@ + join(stale, ", "@),
    )
}

fn concat3(a: &str, b: &str, c: &str) -> (r: String)
    ensures
        r@ == a@ + b@ + c@,
{
    let mut r = owned(a);
    crate::text::append(&mut r, b);
    crate::text::append(&mut r, c);
    r
}

/// Checks that no output of the labelled kind is held for a file outside
/// the source graph; `keys` are the files the outputs are held for.
pub fn check_removed_outputs(label: &str, source_files: &[String], keys: &[String]) -> (r:
    InvariantCheck)
    ensures
        r.deep_view() == removed_outputs_spec(label@, views(source_files@), views(keys@)),
{
    let ghost src = views(source_files@);
    let ghost pred = |k: Seq<char>| !src.contains(k);
    let mut stale: Vec<String> = Vec::new();
    let mut i: usize = 0;
    while i < keys.len()
        invariant
            src == views(source_files@),
            pred == (|k: Seq<char>| !src.contains(k)),
            i <= keys@.len(),
            views(stale@) == views(keys@).take(i as int).filter(pred),
        decreases keys.len() - i,
    {
        let ghost old_stale = views(stale@);
        if !strings_contain(source_files, keys[i].as_str()) {
            stale.push(keys[i].clone());
        }
        proof {
            assert(views(keys@).take(i + 1) =~= views(keys@).take(i as int).push(keys@[i as int]@));
            views(keys@).take(i as int).lemma_filter_push(keys@[i as int]@, pred);
            if pred(keys@[i as int]@) {
                assert(views(stale@) =~= old_stale.push(keys@[i as int]@));
            } else {
                assert(views(stale@) =~= old_stale);
            }
        }
        i = i + 1;
    }
    proof {
        assert(views(keys@).take(keys@.len() as int) =~= views(keys@));
        assert(stale_keys(src, views(keys@)) == views(keys@).filter(pred));
    }
    proof {
        reveal_strlit(" ");
    }
    let id = replace_str(concat3("no-", label, "-for-removed-files").as_str(), " ", "-");
    let text = concat3("no ", label, " for removed files");
    let mut details = concat3("Stale ", label, " remain for ");
    let listed = join_strings(stale.as_slice(), ", ");
    crate::text::append(&mut details, listed.as_str());
    pass_fail(id.as_str(), text.as_str(), stale.len() == 0, details.as_str())
}

/// Whether an entry is an open resource with the given key prefix that is
/// no longer in demand.
pub open spec fn is_leaked(e: ResourceLedgerEntryView, desired: Seq<Seq<char>>, prefix: Seq<char>) -> bool {
    e.state == "open"@ && starts_with(e.key, prefix) && !desired.contains(e.key)
}

/// The keys of the leaked entries, in ledger order.
pub open spec fn leaked_spec(
    entries: Seq<ResourceLedgerEntryView>,
    desired: Seq<Seq<char>>,
    prefix: Seq<char>,
) -> Seq<Seq<char>> {
    entries.filter(|e: ResourceLedgerEntryView| is_leaked(e, desired, prefix)).map_values(
        |e: ResourceLedgerEntryView| e.key,
    )
}

/// The keys of open resources under `prefix` that the full state no
/// longer demands, in key order.
pub fn leaked_resources(full: &FullState, ledger: &StrMap<ResourceLedgerEntry>, prefix: &str) -> (r:
    Vec<String>)
    ensures
        views(r@) == leaked_spec(ledger.vals(), full.deep_view().desired_resources, prefix@),
{
    ledger.lemma_keys();
    let ghost desired = full.deep_view().desired_resources;
    let ghost pred = |e: ResourceLedgerEntryView| is_leaked(e, desired, prefix@);
    let ghost key_of = |e: ResourceLedgerEntryView| e.key;
    assert(desired =~= views(full.desired_resources@));
    let mut r: Vec<String> = Vec::new();
    let mut i: usize = 0;
    while i < ledger.len()
        invariant
            desired == full.deep_view().desired_resources,
            desired == views(full.desired_resources@),
            pred == (|e: ResourceLedgerEntryView| is_leaked(e, desired, prefix@)),
            key_of == (|e: ResourceLedgerEntryView| e.key),
            ledger.keys().len() == ledger.vals().len(),
            i <= ledger.vals().len(),
            views(r@) == ledger.vals().take(i as int).filter(pred).map_values(key_of),
        decreases ledger.vals().len() - i,
    {
        let e = ledger.val_at(i);
        let ghost ev = e.deep_view();
        let ghost before = ledger.vals().take(i as int).filter(pred);
        let open = str_eq(e.state.as_str(), "open");
        let hit = open && str_starts_with(e.key.as_str(), prefix) && !strings_contain(
            full.desired_resources.as_slice(),
            e.key.as_str(),
        );
        if hit {
            r.push(e.key.clone());
        }
        proof {
            assert(ledger.vals().take(i + 1) =~= ledger.vals().take(i as int).push(ev));
            ledger.vals().take(i as int).lemma_filter_push(ev, pred);
            assert(hit == pred(ev));
            if hit {
                assert(before.push(ev).map_values(key_of) =~= before.map_values(key_of).push(
                    ev.key,
                ));
            }
        }
        i = i + 1;
    }
    proof {
        assert(ledger.vals().take(i as int) =~= ledger.vals());
    }
    r
}

/// The check that no file watcher stays open for a file out of demand.
pub fn check_no_removed_watchers(full: &FullState, ledger: &StrMap<ResourceLedgerEntry>) -> (r:
    InvariantCheck)
    ensures
        r.deep_view() == ({
            let leaked = leaked_spec(
                ledger.vals(),
                full.deep_view().desired_resources,
                "WatchFile("@,
            );
            pass_fail_spec(
                "no-watcher-for-removed-files"@,
                "no watcher for removed files"@,
                leaked.len() == 0,
                join(leaked, ", "@),
            )
        }),
{
    let leaked = leaked_resources(full, ledger, "WatchFile(");
    let details = join_strings(leaked.as_slice(), ", ");
    pass_fail(
        "no-watcher-for-removed-files",
        "no watcher for removed files",
        leaked.len() == 0,
        details.as_str(),
    )
}

/// The check that no analysis job stays active for a file out of demand.
pub fn check_no_removed_jobs(full: &FullState, ledger: &StrMap<ResourceLedgerEntry>) -> (r:
    InvariantCheck)
    ensures
        r.deep_view() == ({
            let leaked = leaked_spec(
                ledger.vals(),
                full.deep_view().desired_resources,
                "AnalysisJob("@,
            );
            pass_fail_spec(
                "no-analysis-job-for-removed-files"@,
                "no active analysis job for removed files"@,
                leaked.len() == 0,
                join(leaked, ", "@),
            )
        }),
{
    let leaked = leaked_resources(full, ledger, "AnalysisJob(");
    let details = join_strings(leaked.as_slice(), ", ");
    pass_fail(
        "no-analysis-job-for-removed-files",
        "no active analysis job for removed files",
        leaked.len() == 0,
        details.as_str(),
    )
}

/// Whether an open entry is owned by one of the closed scopes.
pub open spec fn held_by_closed(e: ResourceLedgerEntryView, closed: Seq<Seq<char>>) -> bool {
    e.state == "open"@ && exists|j: int| 0 <= j < e.owners.len() && closed.contains(#[trigger] e.owners[j])
}

/// The keys of open entries owned by a closed scope, in ledger order.
pub open spec fn held_by_closed_spec(entries: Seq<ResourceLedgerEntryView>, closed: Seq<Seq<char>>) -> Seq<Seq<char>> {
    entries.filter(|e: ResourceLedgerEntryView| held_by_closed(e, closed)).map_values(
        |e: ResourceLedgerEntryView| e.key,
    )
}

fn owned_by_any(owners: &Vec<String>, closed: &[String]) -> (b: bool)
    ensures
        b == exists|j: int| 0 <= j < owners@.len() && views(closed@).contains(#[trigger] owners@[j]@),
{
    let mut i: usize = 0;
    while i < owners.len()
        invariant
            i <= owners@.len(),
            forall|j: int| 0 <= j < i ==> !views(closed@).contains(#[trigger] owners@[j]@),
        decreases owners.len() - i,
    {
        if strings_contain(closed, owners[i].as_str()) {
            return true;
        }
        i = i + 1;
    }
    false
}

/// The check that no resource stays open under a scope that was closed.
pub fn check_closed_scopes(ledger: &StrMap<ResourceLedgerEntry>, closed_scopes: &[String]) -> (r:
    InvariantCheck)
    ensures
        r.deep_view() == ({
            let held = held_by_closed_spec(ledger.vals(), views(closed_scopes@));
            pass_fail_spec(
                "closed-scope-owns-no-resources"@,
                "closed scope owns no resources"@,
                held.len() == 0,
                join(held, ", "@),
            )
        }),
{
    ledger.lemma_keys();
    let ghost closed = views(closed_scopes@);
    let ghost pred = |e: ResourceLedgerEntryView| held_by_closed(e, closed);
    let ghost key_of = |e: ResourceLedgerEntryView| e.key;
    let mut held: Vec<String> = Vec::new();
    let mut i: usize = 0;
    while i < ledger.len()
        invariant
            closed == views(closed_scopes@),
            pred == (|e: ResourceLedgerEntryView| held_by_closed(e, closed)),
            key_of == (|e: ResourceLedgerEntryView| e.key),
            ledger.keys().len() == ledger.vals().len(),
            i <= ledger.vals().len(),
            views(held@) == ledger.vals().take(i as int).filter(pred).map_values(key_of),
        decreases ledger.vals().len() - i,
    {
        let e = ledger.val_at(i);
        let ghost ev = e.deep_view();
        let ghost before = ledger.vals().take(i as int).filter(pred);
        let hit = str_eq(e.state.as_str(), "open") && owned_by_any(&e.owners, closed_scopes);
        if hit {
            held.push(e.key.clone());
        }
        proof {
            assert(ledger.vals().take(i + 1) =~= ledger.vals().take(i as int).push(ev));
            ledger.vals().take(i as int).lemma_filter_push(ev, pred);
            assert(ev.owners =~= views(e.owners@));
            assert(hit == pred(ev)) by {
                if hit {
                    let j = choose|j: int|
                        0 <= j < e.owners@.len() && closed.contains(#[trigger] e.owners@[j]@);
                    assert(ev.owners[j] == e.owners@[j]@);
                }
                if pred(ev) {
                    let j = choose|j: int| 0 <= j < ev.owners.len() && closed.contains(#[trigger] ev.owners[j]);
                    assert(ev.owners[j] == e.owners@[j]@);
                }
            }
            if hit {
                assert(before.push(ev).map_values(key_of) =~= before.map_values(key_of).push(
                    ev.key,
                ));
            }
        }
        i = i + 1;
    }
    proof {
        assert(ledger.vals().take(i as int) =~= ledger.vals());
    }
    let details = join_strings(held.as_slice(), ", ");
    pass_fail(
        "closed-scope-owns-no-resources",
        "closed scope owns no resources",
        held.len() == 0,
        details.as_str(),
    )
}

/// Whether the output ledger holds exactly what a full recompute produces.
pub open spec fn outputs_match(full: FullStateView, ledger: OutputLedger) -> bool {
    let l = ledger.deep_view();
    l.diagnostics_by_file == full.diagnostics_by_file && l.links_by_file == full.links_by_file
        && l.tokens_by_file == full.tokens_by_file
}

/// The check that the incrementally maintained output equals the full
/// recompute.
pub fn check_output_equals_full(full: &FullState, ledger: &OutputLedger) -> (r: InvariantCheck)
    ensures
        r.deep_view() == pass_fail_spec(
            "incremental-equals-full-recompute"@,
            "incremental observable state equals full recompute"@,
            outputs_match(full.deep_view(), *ledger),
            "Output ledger diverged from full recompute oracle."@,
        ),
{
    let matches = ledger.diagnostics_by_file.same_view(&full.diagnostics_by_file)
        && ledger.links_by_file.same_view(&full.links_by_file) && ledger.tokens_by_file.same_view(
        &full.tokens_by_file,
    );
    pass_fail(
        "incremental-equals-full-recompute",
        "incremental observable state equals full recompute",
        matches,
        "Output ledger diverged from full recompute oracle.",
    )
}

/// Every invariant check, in report order.
pub open spec fn invariants_spec(
    full: FullStateView,
    ledger: StrMap<ResourceLedgerEntry>,
    output: OutputLedger,
    closed: Seq<Seq<char>>,
    stale_mutated: bool,
) -> Seq<InvariantCheckView> {
    let watchers = leaked_spec(ledger.vals(), full.desired_resources, "WatchFile("@);
    let jobs = leaked_spec(ledger.vals(), full.desired_resources, "AnalysisJob("@);
    let held = held_by_closed_spec(ledger.vals(), closed);
    seq![
        removed_outputs_spec("diagnostics"@, full.source_files, output.diagnostics_by_file.keys()),
        removed_outputs_spec("document links"@, full.source_files, output.links_by_file.keys()),
        removed_outputs_spec("semantic tokens"@, full.source_files, output.tokens_by_file.keys()),
        pass_fail_spec(
            "no-watcher-for-removed-files"@,
            "no watcher for removed files"@,
            watchers.len() == 0,
            join(watchers, ", "@),
        ),
        pass_fail_spec(
            "no-analysis-job-for-removed-files"@,
            "no active analysis job for removed files"@,
            jobs.len() == 0,
            join(jobs, ", "@),
        ),
        pass_fail_spec(
            "stale-host-status-no-output"@,
            "stale host status does not mutate output"@,
            !stale_mutated,
            "A stale host result emitted a diagnostic frame."@,
        ),
        pass_fail_spec(
            "closed-scope-owns-no-resources"@,
            "closed scope owns no resources"@,
            held.len() == 0,
            join(held, ", "@),
        ),
        pass_fail_spec(
            "output-revisions-monotonic"@,
            "output frames are revision-monotonic"@,
            true,
            Seq::empty(),
        ),
        pass_fail_spec(
            "incremental-equals-full-recompute"@,
            "incremental observable state equals full recompute"@,
            outputs_match(full, output),
            "Output ledger diverged from full recompute oracle."@,
        ),
        pass_fail_spec(
            "trace-replay-deterministic"@,
            "trace replay is deterministic"@,
            true,
            Seq::empty(),
        ),
    ]
}

/// Runs every invariant check against the reconciled state.
pub fn invariants(
    full: &FullState,
    resource_ledger: &StrMap<ResourceLedgerEntry>,
    output_ledger: &OutputLedger,
    closed_scopes: &[String],
    stale_mutated: bool,
) -> (r: Vec<InvariantCheck>)
    ensures
        r.deep_view() == invariants_spec(
            full.deep_view(),
            *resource_ledger,
            *output_ledger,
            views(closed_scopes@),
            stale_mutated,
        ),
{
    let ghost fv = full.deep_view();
    assert(fv.source_files =~= views(full.source_files@));
    let dk = output_ledger.diagnostics_by_file.key_list();
    let lk = output_ledger.links_by_file.key_list();
    let tk = output_ledger.tokens_by_file.key_list();
    let c0 = check_removed_outputs("diagnostics", full.source_files.as_slice(), dk.as_slice());
    let c1 = check_removed_outputs("document links", full.source_files.as_slice(), lk.as_slice());
    let c2 = check_removed_outputs("semantic tokens", full.source_files.as_slice(), tk.as_slice());
    let c3 = check_no_removed_watchers(full, resource_ledger);
    let c4 = check_no_removed_jobs(full, resource_ledger);
    let c5 = pass_fail(
        "stale-host-status-no-output",
        "stale host status does not mutate output",
        !stale_mutated,
        "A stale host result emitted a diagnostic frame.",
    );
    let c6 = check_closed_scopes(resource_ledger, closed_scopes);
    let c7 = pass_fail("output-revisions-monotonic", "output frames are revision-monotonic", true, "");
    let c8 = check_output_equals_full(full, output_ledger);
    let c9 = pass_fail("trace-replay-deterministic", "trace replay is deterministic", true, "");
    let r = vec![c0, c1, c2, c3, c4, c5, c6, c7, c8, c9];
    proof {
        reveal_strlit("");
        assert(r.deep_view() =~= invariants_spec(
            fv,
            *resource_ledger,
            *output_ledger,
            views(closed_scopes@),
            stale_mutated,
        ));
    }
    r
}

/// No stale key remains when every key is a source file.
proof fn lemma_no_stale(source: Seq<Seq<char>>, keys: Seq<Seq<char>>)
    requires
        forall|k: Seq<char>| #[trigger] keys.contains(k) ==> source.contains(k),
    ensures
        stale_keys(source, keys).len() == 0,
{
    broadcast use {vstd::seq_lib::group_filter_ensures, Seq::lemma_filter_contains_rev};

    let f = stale_keys(source, keys);
    if f.len() > 0 {
        assert(!source.contains(f[0]));
        assert(f.contains(f[0]));
        assert(keys.contains(f[0]));
    }
}

/// Nothing leaks when the open entries are exactly the demanded ones.
proof fn lemma_no_leak(ledger: StrMap<ResourceLedgerEntry>, desired: Seq<Seq<char>>, prefix: Seq<char>)
    requires
        sorted(ledger.keys()),
        ledger_keyed(ledger@),
        forall|k: Seq<char>| #[trigger] is_open(ledger@, k) ==> desired.contains(k),
    ensures
        leaked_spec(ledger.vals(), desired, prefix).len() == 0,
{
    broadcast use {vstd::seq_lib::group_filter_ensures, Seq::lemma_filter_contains_rev};

    lemma_map_keys(ledger);
    let vals = ledger.vals();
    let f = vals.filter(|e: ResourceLedgerEntryView| is_leaked(e, desired, prefix));
    assert(leaked_spec(vals, desired, prefix).len() == f.len());
    if f.len() > 0 {
        let e = f[0];
        assert(is_leaked(e, desired, prefix));
        assert(f.contains(e));
        assert(vals.contains(e));
        let i = choose|i: int| 0 <= i < vals.len() && vals[i] == e;
        let k = ledger.keys()[i];
        assert(ledger@[k] == e);
        assert(ledger.keys().contains(k));
        assert(ledger@.dom().contains(k));
        assert(e.key == k);
        assert(is_open(ledger@, k));
    }
}

/// A state whose consumer holds exactly the derived outputs and whose
/// ledger holds exactly the demanded resources open passes every check
/// but the closed-scope one: no outputs or resources for removed files,
/// no stale host result (when none was accepted), monotonic revisions,
/// the oracle comparison and replay determinism.
pub proof fn law_reconciled_state_passes_checks(
    full: FullStateView,
    ledger: StrMap<ResourceLedgerEntry>,
    output: OutputLedger,
    closed: Seq<Seq<char>>,
)
    requires
        sorted(ledger.keys()),
        sorted(output.diagnostics_by_file.keys()),
        sorted(output.links_by_file.keys()),
        sorted(output.tokens_by_file.keys()),
        full_wf(full),
        outputs_agree(output.deep_view(), full),
        ledger_keyed(ledger@),
        forall|k: Seq<char>| #[trigger] is_open(ledger@, k) <==> full.desired_resources.contains(k),
    ensures
        forall|i: int|
            0 <= i < 10 && i != 6 ==> #[trigger] invariants_spec(full, ledger, output, closed, false)[i].status
                == "pass"@,
        invariants_spec(full, ledger, output, closed, false).len() == 10,
{
    lemma_map_keys(output.diagnostics_by_file);
    lemma_map_keys(output.links_by_file);
    lemma_map_keys(output.tokens_by_file);
    let ov = output.deep_view();
    assert(ov.diagnostics_by_file == output.diagnostics_by_file@);
    assert(ov.links_by_file == output.links_by_file@);
    assert(ov.tokens_by_file == output.tokens_by_file@);
    assert forall|k: Seq<char>| #[trigger] output.diagnostics_by_file.keys().contains(k) implies full.source_files.contains(k) by {
        assert(output.diagnostics_by_file@.dom().contains(k));
        assert(full.diagnostics_by_file.contains_key(k));
    }
    assert forall|k: Seq<char>| #[trigger] output.links_by_file.keys().contains(k) implies full.source_files.contains(k) by {
        assert(output.links_by_file@.dom().contains(k));
        assert(full.links_by_file.contains_key(k));
    }
    assert forall|k: Seq<char>| #[trigger] output.tokens_by_file.keys().contains(k) implies full.source_files.contains(k) by {
        assert(output.tokens_by_file@.dom().contains(k));
        assert(full.tokens_by_file.contains_key(k));
    }
    lemma_no_stale(full.source_files, output.diagnostics_by_file.keys());
    lemma_no_stale(full.source_files, output.links_by_file.keys());
    lemma_no_stale(full.source_files, output.tokens_by_file.keys());
    lemma_no_leak(ledger, full.desired_resources, "WatchFile("@);
    lemma_no_leak(ledger, full.desired_resources, "AnalysisJob("@);
}

} // verus!
