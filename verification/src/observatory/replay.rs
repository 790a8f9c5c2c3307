//! Replaying the action log from the initial state, and comparing what
//! the replay produced with the live state.
use vstd::prelude::*;
use crate::dup::{Dup, SameView};
use crate::observatory::determinism::{lemma_maps_ordered, maps_ordered};
use crate::observatory::engine::{app_wf, dispatch_action, dispatch_ok, initial_app_state, initial_ok};
use crate::observatory::types::{
    AppState, AppStateView, InvariantCheck, InvariantCheckView, ObservableState,
    ObservableStateView, ReplayResult, ReplayResultView, ResourceLedgerEntry,
    ResourceLedgerEntryView, TransactionTraceView,
};
use crate::strmap::views;
use crate::text::{contains, owned, replace_all, replace_str, starts_with, str_contains, str_eq, str_starts_with};

verus! {

// ---------------------------------------------------------------------
// Observable state
// ---------------------------------------------------------------------
/// Whether an entry is an open watcher.
pub open spec fn is_watcher(e: ResourceLedgerEntryView) -> bool {
    e.state == "open"@ && contains(e.key, "Watch"@)
}

/// Whether an entry is an active analysis job.
pub open spec fn is_active_job(e: ResourceLedgerEntryView) -> bool {
    e.state == "open"@ && starts_with(e.key, "AnalysisJob("@)
}

/// The keys of the entries.
pub open spec fn entry_keys(es: Seq<ResourceLedgerEntryView>) -> Seq<Seq<char>> {
    es.map_values(|e: ResourceLedgerEntryView| e.key)
}

/// What an observer of a state sees: the consumer's outputs, the ledger
/// entries in key order, and the keys of open watchers and active jobs.
pub open spec fn observable_spec(s: &AppState) -> ObservableStateView {
    let resources = s.resource_ledger.vals();
    let sv = s.deep_view();
    ObservableStateView {
        diagnostics_by_file: sv.output_ledger.diagnostics_by_file,
        links_by_file: sv.output_ledger.links_by_file,
        tokens_by_file: sv.output_ledger.tokens_by_file,
        watchers: entry_keys(resources.filter(|e: ResourceLedgerEntryView| is_watcher(e))),
        active_jobs: entry_keys(resources.filter(|e: ResourceLedgerEntryView| is_active_job(e))),
        resources,
    }
}

/// What an observer of the state sees.
pub fn observable(state: &AppState) -> (r: ObservableState)
    ensures
        r.deep_view() == observable_spec(state),
{
    state.resource_ledger.lemma_keys();
    let ghost vals = state.resource_ledger.vals();
    let ghost pw = |e: ResourceLedgerEntryView| is_watcher(e);
    let ghost pj = |e: ResourceLedgerEntryView| is_active_job(e);
    let mut resources: Vec<ResourceLedgerEntry> = Vec::new();
    let mut watchers: Vec<String> = Vec::new();
    let mut jobs: Vec<String> = Vec::new();
    let n = state.resource_ledger.len();
    let mut i: usize = 0;
    while i < n
        invariant
            n == vals.len(),
            vals == state.resource_ledger.vals(),
            pw == (|e: ResourceLedgerEntryView| is_watcher(e)),
            pj == (|e: ResourceLedgerEntryView| is_active_job(e)),
            state.resource_ledger.keys().len() == vals.len(),
            i <= n,
            resources.deep_view() == vals.take(i as int),
            views(watchers@) == entry_keys(vals.take(i as int).filter(pw)),
            views(jobs@) == entry_keys(vals.take(i as int).filter(pj)),
        decreases n - i,
    {
        let e = state.resource_ledger.val_at(i);
        let ghost ev = e.deep_view();
        let ghost t = vals.take(i as int);
        proof {
            assert(vals.take(i + 1) =~= t.push(ev));
            t.lemma_filter_push(ev, pw);
            t.lemma_filter_push(ev, pj);
        }
        let open = str_eq(e.state.as_str(), "open");
        if open && str_contains(e.key.as_str(), "Watch") {
            let ghost old_w = views(watchers@);
            watchers.push(e.key.dup());
            assert(views(watchers@) =~= old_w.push(ev.key));
            assert(entry_keys(t.filter(pw).push(ev)) =~= entry_keys(t.filter(pw)).push(ev.key));
        }
        if open && str_starts_with(e.key.as_str(), "AnalysisJob(") {
            let ghost old_j = views(jobs@);
            jobs.push(e.key.dup());
            assert(views(jobs@) =~= old_j.push(ev.key));
            assert(entry_keys(t.filter(pj).push(ev)) =~= entry_keys(t.filter(pj)).push(ev.key));
        }
        let ghost old_r = resources.deep_view();
        resources.push(e.dup());
        assert(resources.deep_view() =~= old_r.push(ev));
        i = i + 1;
    }
    assert(vals.take(n as int) =~= vals);
    let r = ObservableState {
        diagnostics_by_file: state.output_ledger.diagnostics_by_file.dup(),
        links_by_file: state.output_ledger.links_by_file.dup(),
        tokens_by_file: state.output_ledger.tokens_by_file.dup(),
        resources,
        active_jobs: jobs,
        watchers,
    };
    assert(r.deep_view().watchers =~= views(r.watchers@));
    assert(r.deep_view().active_jobs =~= views(r.active_jobs@));
    r
}

// ---------------------------------------------------------------------
// Signatures
// ---------------------------------------------------------------------
/// `op:key` of each command of a receipt.
pub open spec fn trace_command_sigs(t: TransactionTraceView) -> Seq<Seq<char>> {
    t.resource_commands.map_values(|c: crate::observatory::types::ResourceCommandView| c.op + ":"@ + c.key)
}

/// `kind:outputKey` of each frame of a receipt.
pub open spec fn trace_frame_sigs(t: TransactionTraceView) -> Seq<Seq<char>> {
    t.output_frames.map_values(|f: crate::observatory::types::OutputFrameView| f.kind + ":"@ + f.output_key)
}

/// `id:status` of each invariant check of a receipt.
pub open spec fn trace_check_sigs(t: TransactionTraceView) -> Seq<Seq<char>> {
    t.invariant_checks.map_values(|c: InvariantCheckView| c.id + ":"@ + c.status)
}

/// Which signature of a receipt.
pub open spec fn trace_sigs(t: TransactionTraceView, which: nat) -> Seq<Seq<char>> {
    if which == 0 {
        trace_command_sigs(t)
    } else if which == 1 {
        trace_frame_sigs(t)
    } else {
        trace_check_sigs(t)
    }
}

/// The signatures of all receipts, in order: commands (0), frames (1) or
/// invariant checks (2).
pub open spec fn signature(traces: Seq<TransactionTraceView>, which: nat) -> Seq<Seq<char>>
    decreases traces.len(),
{
    if traces.len() == 0 {
        Seq::empty()
    } else {
        signature(traces.drop_last(), which) + trace_sigs(traces.last(), which)
    }
}

fn sig_of(a: &str, b: &str) -> (r: String)
    ensures
        r@ == a@ + ":"@ + b@,
{
    let mut r = owned(a);
    crate::text::append(&mut r, ":");
    crate::text::append(&mut r, b);
    r
}

fn push_trace_sigs(out: &mut Vec<String>, t: &crate::observatory::types::TransactionTrace, which: u8)
    requires
        which <= 2,
    ensures
        views(final(out)@) == views(old(out)@) + trace_sigs(t.deep_view(), which as nat),
{
    let ghost start = views(out@);
    let ghost tv = t.deep_view();
    let n = if which == 0 {
        t.resource_commands.len()
    } else if which == 1 {
        t.output_frames.len()
    } else {
        t.invariant_checks.len()
    };
    assert(n == trace_sigs(tv, which as nat).len());
    let mut i: usize = 0;
    while i < n
        invariant
            which <= 2,
            tv == t.deep_view(),
            n == trace_sigs(tv, which as nat).len(),
            i <= n,
            views(out@) == start + trace_sigs(tv, which as nat).take(i as int),
        decreases n - i,
    {
        let s = if which == 0 {
            let c = &t.resource_commands[i];
            sig_of(c.op.as_str(), c.key.as_str())
        } else if which == 1 {
            let f = &t.output_frames[i];
            sig_of(f.kind.as_str(), f.output_key.as_str())
        } else {
            let c = &t.invariant_checks[i];
            sig_of(c.id.as_str(), c.status.as_str())
        };
        assert(s@ == trace_sigs(tv, which as nat)[i as int]);
        let ghost old_o = views(out@);
        out.push(s);
        assert(views(out@) =~= old_o.push(s@));
        assert(trace_sigs(tv, which as nat).take(i + 1) =~= trace_sigs(tv, which as nat).take(i as int).push(s@));
        i = i + 1;
    }
    assert(trace_sigs(tv, which as nat).take(n as int) =~= trace_sigs(tv, which as nat));
}

/// The signature of a state's receipts.
pub fn state_signature(state: &AppState, which: u8) -> (r: Vec<String>)
    requires
        which <= 2,
    ensures
        views(r@) == signature(state.deep_view().traces, which as nat),
{
    let ghost ts = state.deep_view().traces;
    let mut r: Vec<String> = Vec::new();
    let mut i: usize = 0;
    while i < state.traces.len()
        invariant
            which <= 2,
            ts == state.deep_view().traces,
            ts.len() == state.traces@.len(),
            i <= ts.len(),
            views(r@) == signature(ts.take(i as int), which as nat),
        decreases ts.len() - i,
    {
        push_trace_sigs(&mut r, &state.traces[i], which);
        assert(ts.take(i + 1).drop_last() =~= ts.take(i as int));
        assert(ts.take(i + 1).last() == ts[i as int]);
        i = i + 1;
    }
    assert(ts.take(ts.len() as int) =~= ts);
    r
}

// ---------------------------------------------------------------------
// Replay
// ---------------------------------------------------------------------
/// A replay check: passes or fails with `Replay diverged`.
pub open spec fn replay_check_spec(label: Seq<char>, ok: bool) -> InvariantCheckView {
    InvariantCheckView {
        id: replace_all(label, " "@, "-"@),
        label,
        status: if ok {
            "pass"@
        } else {
            "fail"@
        },
        details: if ok {
            Seq::empty()
        } else {
            "Replay diverged"@
        },
    }
}

/// A replay check with the given label.
pub fn replay_check(label: &str, ok: bool) -> (r: InvariantCheck)
    ensures
        r.deep_view() == replay_check_spec(label@, ok),
{
    proof {
        reveal_strlit(" ");
    }
    InvariantCheck {
        id: replace_str(label, " ", "-"),
        label: owned(label),
        status: if ok {
            owned("pass")
        } else {
            owned("fail")
        },
        details: if ok {
            String::new()
        } else {
            owned("Replay diverged")
        },
    }
}

/// The outcome of comparing a live state with its replay: the same number
/// of receipts, the same resource plans, output frames and invariant
/// results, and the same observable state.
pub open spec fn replay_result_spec(state: &AppState, replayed: &AppState) -> ReplayResultView {
    let sv = state.deep_view();
    let pv = replayed.deep_view();
    let same_obs = observable_spec(replayed) == observable_spec(state);
    let checks = seq![
        replay_check_spec("same transaction trace"@, pv.traces.len() == sv.traces.len()),
        replay_check_spec("same resource plans"@, signature(pv.traces, 0) == signature(sv.traces, 0)),
        replay_check_spec("same output frames"@, signature(pv.traces, 1) == signature(sv.traces, 1)),
        replay_check_spec("same final output state"@, same_obs),
        replay_check_spec(
            "same invariant results"@,
            signature(pv.traces, 2) == signature(sv.traces, 2),
        ),
    ];
    ReplayResultView {
        status: if forall|i: int| 0 <= i < checks.len() ==> #[trigger] checks[i].status == "pass"@ {
            "pass"@
        } else {
            "fail"@
        },
        trace_length: state.traces@.len() as usize,
        checks,
        final_observable_matches: same_obs,
    }
}

/// Whether `states` replay the live state's action log: the first is the
/// initial state in the live state's mode and bug policy, and each next
/// one dispatches the next logged action.
pub open spec fn replays(state: &AppState, states: Seq<AppState>) -> bool {
    let sv = state.deep_view();
    &&& states.len() == sv.action_log.len() + 1
    &&& exists|init: AppState|
        #[trigger] initial_ok(&init) && maps_ordered(&init) && states[0].deep_view() == AppStateView {
            mode: sv.mode,
            bug_policy: sv.bug_policy,
            ..init.deep_view()
        }
    &&& forall|i: int|
        0 <= i < sv.action_log.len() ==> #[trigger] dispatch_ok(
            &states[i],
            sv.action_log[i],
            &states[i + 1],
        )
}

/// A dispatch advances the input revision and the receipts by at most one,
/// and leaves at least one receipt.
pub proof fn lemma_dispatch_growth(old: &AppState, a: crate::observatory::types::ActionView, r: &AppState)
    requires
        dispatch_ok(old, a, r),
    ensures
        r.inputs.scenario_revision <= old.inputs.scenario_revision + 1,
        r.traces@.len() <= old.traces@.len() + 1,
        old.traces@.len() >= 1 ==> r.traces@.len() >= 1,
{
    assert(r.deep_view().traces.len() == r.traces@.len());
    assert(old.deep_view().traces.len() == old.traces@.len());
}

fn replay_states(state: &AppState) -> (replayed: AppState)
    requires
        state.action_log@.len() + 2 < u32::MAX,
    ensures
        exists|states: Seq<AppState>|
            replays(state, states) && states.last() == replayed && forall|i: int|
                0 <= i < states.len() ==> maps_ordered(#[trigger] &states[i]),
{
    let ghost sv = state.deep_view();
    let mut replayed = initial_app_state();
    lemma_maps_ordered(&replayed);
    let ghost init = replayed;
    replayed.mode = state.mode.dup();
    replayed.bug_policy = state.bug_policy.dup();
    lemma_maps_ordered(&replayed);
    let ghost mut states: Seq<AppState> = seq![replayed];
    let n = state.action_log.len();
    let mut i: usize = 0;
    assert(sv.action_log.len() == n);
    while i < n
        invariant
            sv == state.deep_view(),
            n == sv.action_log.len(),
            n + 2 < u32::MAX,
            i <= n,
            states.len() == i + 1,
            states.last() == replayed,
            app_wf(&replayed),
            replayed.inputs.scenario_revision <= i + 1,
            replayed.traces@.len() <= i + 1,
            initial_ok(&init),
            maps_ordered(&init),
            forall|j: int| 0 <= j < states.len() ==> maps_ordered(#[trigger] &states[j]),
            states[0].deep_view() == (AppStateView {
                mode: sv.mode,
                bug_policy: sv.bug_policy,
                ..init.deep_view()
            }),
            forall|j: int|
                0 <= j < i ==> #[trigger] dispatch_ok(&states[j], sv.action_log[j], &states[j + 1]),
        decreases n - i,
    {
        let a = state.action_log[i].dup();
        let ghost before = replayed;
        replayed = dispatch_action(replayed, a);
        lemma_maps_ordered(&replayed);
        proof {
            lemma_dispatch_growth(&before, sv.action_log[i as int], &replayed);
            states = states.push(replayed);
        }
        i = i + 1;
    }
    assert(replays(state, states));
    replayed
}

fn compare_replay(state: &AppState, replayed: &AppState) -> (r: ReplayResult)
    ensures
        r.deep_view() == replay_result_spec(state, replayed),
{
    let same_traces = replayed.traces.len() == state.traces.len();
    let p0 = state_signature(replayed, 0);
    let s0 = state_signature(state, 0);
    let p1 = state_signature(replayed, 1);
    let s1 = state_signature(state, 1);
    let p2 = state_signature(replayed, 2);
    let s2 = state_signature(state, 2);
    assert(p0.deep_view() =~= views(p0@));
    assert(s0.deep_view() =~= views(s0@));
    assert(p1.deep_view() =~= views(p1@));
    assert(s1.deep_view() =~= views(s1@));
    assert(p2.deep_view() =~= views(p2@));
    assert(s2.deep_view() =~= views(s2@));
    let same_plans = p0.same_view(&s0);
    let same_frames = p1.same_view(&s1);
    let same_obs = observable(replayed).same_view(&observable(state));
    let same_checks = p2.same_view(&s2);
    let checks = vec![
        replay_check("same transaction trace", same_traces),
        replay_check("same resource plans", same_plans),
        replay_check("same output frames", same_frames),
        replay_check("same final output state", same_obs),
        replay_check("same invariant results", same_checks),
    ];
    let mut all = true;
    let mut k: usize = 0;
    while k < checks.len()
        invariant
            k <= checks@.len(),
            all == forall|j: int| 0 <= j < k ==> #[trigger] checks.deep_view()[j].status == "pass"@,
        decreases checks.len() - k,
    {
        assert(checks.deep_view()[k as int] == checks@[k as int].deep_view());
        let ghost old_all = all;
        if !str_eq(checks[k].status.as_str(), "pass") {
            all = false;
        }
        assert(all == forall|j: int| 0 <= j < k + 1 ==> #[trigger] checks.deep_view()[j].status == "pass"@) by {
            if old_all && all {
                assert forall|j: int| 0 <= j < k + 1 implies #[trigger] checks.deep_view()[j].status == "pass"@ by {
                    if j < k {
                    }
                }
            } else if !old_all {
                let j0 = choose|j: int| 0 <= j < k && !(#[trigger] checks.deep_view()[j].status == "pass"@);
                assert(!(checks.deep_view()[j0].status == "pass"@));
            } else {
                assert(!(checks.deep_view()[k as int].status == "pass"@));
            }
        }
        k = k + 1;
    }
    let r = ReplayResult {
        status: if all {
            owned("pass")
        } else {
            owned("fail")
        },
        trace_length: state.traces.len(),
        checks,
        final_observable_matches: same_obs,
    };
    proof {
        let pv = replayed.deep_view();
        let sv = state.deep_view();
        assert(pv.traces.len() == replayed.traces@.len());
        assert(sv.traces.len() == state.traces@.len());
        assert(r.deep_view().checks =~= replay_result_spec(state, replayed).checks);
    }
    r
}

/// Replays the state's action log from the initial state, in the state's
/// mode and bug policy, and compares the result with the state.
pub fn replay_current_trace(state: &AppState) -> (r: ReplayResult)
    requires
        state.action_log@.len() + 2 < u32::MAX,
    ensures
        exists|states: Seq<AppState>|
            replays(state, states) && r.deep_view() == replay_result_spec(state, &states.last()) && forall|i: int|
                0 <= i < states.len() ==> maps_ordered(#[trigger] &states[i]),
{
    let replayed = replay_states(state);
    compare_replay(state, &replayed)
}

} // verus!
