//! The naive reconciler's seeded bugs, and the classification of host
//! status results.
use vstd::prelude::*;
use crate::dup::Dup;
use crate::observatory::compute::{frame, frame_spec};
use crate::observatory::types::{
    Action, ActionView, AppState, Diagnostic, DiagnosticView, HostStatus, HostStatusEvent,
    HostStatusEventView, HostStatusView, NaiveBugPolicyView, OutputFrame, OutputFrameView,
    ResourceCommand, ResourceCommandView,
};
use crate::text::{append, contains, dec, owned, push_dec, starts_with, str_contains, str_eq, str_starts_with};

verus! {

/// The stale `AnalysisFinished` result for `src/app.tl` that the stale
/// analysis scenario delivers.
pub open spec fn stale_status_spec(command_revision: u32, status_revision: u32) -> HostStatusView {
    HostStatusView {
        kind: "AnalysisFinished"@,
        path: "src/app.tl"@,
        command_revision,
        diagnostics: seq![
            DiagnosticView {
                id: "stale:src/app.tl"@,
                file_path: "src/app.tl"@,
                line: 7,
                column: 13,
                severity: "error"@,
                message: "Stale analysis result from cancelled app job"@,
                source: "typecheck"@,
            },
        ],
        error: None,
        status_revision,
    }
}

/// A stale analysis result for `src/app.tl`.
pub fn stale_status(command_revision: u32, status_revision: u32) -> (r: HostStatus)
    ensures
        r.deep_view() == stale_status_spec(command_revision, status_revision),
{
    let d = Diagnostic {
        id: owned("stale:src/app.tl"),
        file_path: owned("src/app.tl"),
        line: 7,
        column: 13,
        severity: owned("error"),
        message: owned("Stale analysis result from cancelled app job"),
        source: owned("typecheck"),
    };
    let r = HostStatus {
        kind: owned("AnalysisFinished"),
        path: owned("src/app.tl"),
        command_revision,
        diagnostics: vec![d],
        error: None,
        status_revision,
    };
    assert(r.deep_view().diagnostics =~= stale_status_spec(command_revision, status_revision).diagnostics);
    r
}

/// `n - 1`, or `0` for `0`.
pub open spec fn sat_dec(n: u32) -> u32 {
    if n == 0 {
        0
    } else {
        (n - 1) as u32
    }
}

/// The diagnostics frame a naive reconciler publishes when it accepts the
/// stale result.
pub open spec fn stale_frame_spec(revision: u32) -> OutputFrameView {
    OutputFrameView {
        diagnostics: stale_status_spec(sat_dec(revision), revision).diagnostics,
        ..frame_spec(
            "BaselineDiagnostics"@,
            "src/app.tl"@,
            revision,
            "naive accepted stale host result"@,
        )
    }
}

/// The frame publishing the stale result's diagnostics.
pub fn stale_diagnostic_frame(revision: u32) -> (r: OutputFrame)
    ensures
        r.deep_view() == stale_frame_spec(revision),
{
    let mut f = frame(
        "BaselineDiagnostics",
        "src/app.tl",
        revision,
        "naive accepted stale host result",
    );
    f.diagnostics = stale_status(revision.saturating_sub(1), revision).diagnostics;
    f
}

/// How a host status is classified against the current analysis revision.
pub open spec fn classify_spec(status: HostStatusView, current: u32) -> HostStatusEventView {
    let accepted = status.command_revision == current;
    HostStatusEventView {
        status,
        classification: if accepted {
            "accepted"@
        } else {
            "stale_command_revision"@
        },
        reason: "current analysis command revision for src/app.tl is rev"@ + dec(current as nat),
        effect: if accepted {
            "may publish output"@
        } else {
            "no output mutation"@
        },
    }
}

/// The host status events of a transaction: for an injected analysis
/// result, the last status received, classified against the current
/// analysis revision of its file (`revision` when it has none); no event
/// otherwise.
pub open spec fn host_events_spec(
    statuses: Seq<HostStatusView>,
    revisions: Map<Seq<char>, u32>,
    action: ActionView,
    revision: u32,
) -> Seq<HostStatusEventView> {
    if action is InjectStaleAnalysisResult {
        let status = statuses.last();
        let current = if revisions.contains_key(status.path) {
            revisions[status.path]
        } else {
            revision
        };
        seq![classify_spec(status, current)]
    } else {
        Seq::empty()
    }
}

/// Classifies the host status an action delivered.
pub fn host_status_events(state: &AppState, action: &Action, revision: u32) -> (r: Vec<
    HostStatusEvent,
>)
    requires
        action.deep_view() is InjectStaleAnalysisResult ==> state.inputs.host_statuses@.len() > 0,
    ensures
        r.deep_view() == host_events_spec(
            state.deep_view().inputs.host_statuses,
            state.deep_view().analysis_revisions,
            action.deep_view(),
            revision,
        ),
{
    match action {
        Action::InjectStaleAnalysisResult => {},
        _ => {
            let r: Vec<HostStatusEvent> = Vec::new();
            assert(r.deep_view() =~= Seq::<HostStatusEventView>::empty());
            return r;
        },
    }
    let n = state.inputs.host_statuses.len();
    let status = state.inputs.host_statuses[n - 1].dup();
    assert(status.deep_view() == state.deep_view().inputs.host_statuses.last());
    let current = match state.analysis_revisions.get(status.path.as_str()) {
        Some(r) => *r,
        None => revision,
    };
    let accepted = status.command_revision == current;
    let mut reason = owned("current analysis command revision for src/app.tl is rev");
    push_dec(&mut reason, current as u64);
    let ev = HostStatusEvent {
        status,
        classification: if accepted {
            owned("accepted")
        } else {
            owned("stale_command_revision")
        },
        reason,
        effect: if accepted {
            owned("may publish output")
        } else {
            owned("no output mutation")
        },
    };
    let r = vec![ev];
    assert(r.deep_view() =~= host_events_spec(
        state.deep_view().inputs.host_statuses,
        state.deep_view().analysis_revisions,
        action.deep_view(),
        revision,
    ));
    r
}

/// Whether a command closes a file watcher.
pub open spec fn closes_watcher(c: ResourceCommandView) -> bool {
    c.op == "Close"@ && starts_with(c.key, "WatchFile("@)
}

/// Whether a frame is about the document links of `src/app.tl`.
pub open spec fn app_links_frame(f: OutputFrameView) -> bool {
    contains(f.output_key, "DocumentLinks:src/app.tl"@)
}

/// The commands a naive reconciler keeps.
pub open spec fn naive_commands(
    policy: NaiveBugPolicyView,
    naive: bool,
    cs: Seq<ResourceCommandView>,
) -> Seq<ResourceCommandView> {
    if naive && policy.skip_watcher_close {
        cs.filter(|c: ResourceCommandView| !closes_watcher(c))
    } else {
        cs
    }
}

/// Whether a naive reconciler accepts a stale result for this action.
pub open spec fn accepts_stale(policy: NaiveBugPolicyView, naive: bool, action: ActionView) -> bool {
    naive && policy.accept_stale_analysis_results && action is InjectStaleAnalysisResult
}

/// The frames a naive reconciler publishes: it drops diagnostic clears,
/// drops the app's link rebaseline on a schema rename, and publishes a
/// stale result it accepts.
pub open spec fn naive_frames(
    policy: NaiveBugPolicyView,
    naive: bool,
    action: ActionView,
    revision: u32,
    fs: Seq<OutputFrameView>,
) -> Seq<OutputFrameView> {
    let f1 = if naive && policy.skip_clear_diagnostics_for_deleted_file {
        fs.filter(|f: OutputFrameView| f.kind != "ClearDiagnostics"@)
    } else {
        fs
    };
    let f2 = if naive && policy.skip_document_link_rebaseline && action is RenameSchema {
        f1.filter(|f: OutputFrameView| !app_links_frame(f))
    } else {
        f1
    };
    if accepts_stale(policy, naive, action) {
        f2.push(stale_frame_spec(revision))
    } else {
        f2
    }
}

/// A host status event as a naive reconciler that accepted it reports it.
pub open spec fn accepted_event(e: HostStatusEventView) -> HostStatusEventView {
    HostStatusEventView {
        classification: "accepted_by_naive_callback"@,
        effect: "published stale diagnostics"@,
        ..e
    }
}

/// The host events a naive reconciler reports.
pub open spec fn naive_events(
    policy: NaiveBugPolicyView,
    naive: bool,
    action: ActionView,
    es: Seq<HostStatusEventView>,
) -> Seq<HostStatusEventView> {
    if accepts_stale(policy, naive, action) {
        es.map_values(|e: HostStatusEventView| accepted_event(e))
    } else {
        es
    }
}

fn retain_commands(cs: &mut Vec<ResourceCommand>)
    ensures
        final(cs).deep_view() == old(cs).deep_view().filter(
            |c: ResourceCommandView| !closes_watcher(c),
        ),
{
    let ghost pred = |c: ResourceCommandView| !closes_watcher(c);
    let ghost src = cs.deep_view();
    let mut kept: Vec<ResourceCommand> = Vec::new();
    let mut i: usize = 0;
    while i < cs.len()
        invariant
            src == cs.deep_view(),
            pred == (|c: ResourceCommandView| !closes_watcher(c)),
            i <= src.len(),
            kept.deep_view() == src.take(i as int).filter(pred),
        decreases src.len() - i,
    {
        let c = &cs[i];
        let ghost old_k = kept.deep_view();
        let drop = str_eq(c.op.as_str(), "Close") && str_starts_with(c.key.as_str(), "WatchFile(");
        if !drop {
            kept.push(c.dup());
        }
        proof {
            assert(src.take(i + 1) =~= src.take(i as int).push(src[i as int]));
            src.take(i as int).lemma_filter_push(src[i as int], pred);
            if !drop {
                assert(kept.deep_view() =~= old_k.push(src[i as int]));
            }
        }
        i = i + 1;
    }
    assert(src.take(src.len() as int) =~= src);
    *cs = kept;
}

fn retain_frames_not_kind(fs: &mut Vec<OutputFrame>, kind: &str)
    ensures
        final(fs).deep_view() == old(fs).deep_view().filter(|f: OutputFrameView| f.kind != kind@),
{
    let ghost pred = |f: OutputFrameView| f.kind != kind@;
    let ghost src = fs.deep_view();
    let mut kept: Vec<OutputFrame> = Vec::new();
    let mut i: usize = 0;
    while i < fs.len()
        invariant
            src == fs.deep_view(),
            pred == (|f: OutputFrameView| f.kind != kind@),
            i <= src.len(),
            kept.deep_view() == src.take(i as int).filter(pred),
        decreases src.len() - i,
    {
        let f = &fs[i];
        let ghost old_k = kept.deep_view();
        let keep = !str_eq(f.kind.as_str(), kind);
        if keep {
            kept.push(f.dup());
        }
        proof {
            assert(src.take(i + 1) =~= src.take(i as int).push(src[i as int]));
            src.take(i as int).lemma_filter_push(src[i as int], pred);
            if keep {
                assert(kept.deep_view() =~= old_k.push(src[i as int]));
            }
        }
        i = i + 1;
    }
    assert(src.take(src.len() as int) =~= src);
    *fs = kept;
}

fn retain_frames_not_app_links(fs: &mut Vec<OutputFrame>)
    ensures
        final(fs).deep_view() == old(fs).deep_view().filter(
            |f: OutputFrameView| !app_links_frame(f),
        ),
{
    let ghost pred = |f: OutputFrameView| !app_links_frame(f);
    let ghost src = fs.deep_view();
    let mut kept: Vec<OutputFrame> = Vec::new();
    let mut i: usize = 0;
    while i < fs.len()
        invariant
            src == fs.deep_view(),
            pred == (|f: OutputFrameView| !app_links_frame(f)),
            i <= src.len(),
            kept.deep_view() == src.take(i as int).filter(pred),
        decreases src.len() - i,
    {
        let f = &fs[i];
        let ghost old_k = kept.deep_view();
        let keep = !str_contains(f.output_key.as_str(), "DocumentLinks:src/app.tl");
        if keep {
            kept.push(f.dup());
        }
        proof {
            assert(src.take(i + 1) =~= src.take(i as int).push(src[i as int]));
            src.take(i as int).lemma_filter_push(src[i as int], pred);
            if keep {
                assert(kept.deep_view() =~= old_k.push(src[i as int]));
            }
        }
        i = i + 1;
    }
    assert(src.take(src.len() as int) =~= src);
    *fs = kept;
}

fn mark_accepted(es: &mut Vec<HostStatusEvent>)
    ensures
        final(es).deep_view() == old(es).deep_view().map_values(
            |e: HostStatusEventView| accepted_event(e),
        ),
{
    let ghost src = es.deep_view();
    let mut out: Vec<HostStatusEvent> = Vec::new();
    let mut i: usize = 0;
    while i < es.len()
        invariant
            src == es.deep_view(),
            i <= src.len(),
            out.deep_view() == src.take(i as int).map_values(|e: HostStatusEventView| accepted_event(e)),
        decreases src.len() - i,
    {
        let e = &es[i];
        let ne = HostStatusEvent {
            status: e.status.dup(),
            classification: owned("accepted_by_naive_callback"),
            reason: e.reason.dup(),
            effect: owned("published stale diagnostics"),
        };
        let ghost old_o = out.deep_view();
        out.push(ne);
        proof {
            assert(out.deep_view() =~= old_o.push(accepted_event(src[i as int])));
            assert(src.take(i + 1).map_values(|e: HostStatusEventView| accepted_event(e)) =~= src.take(
                i as int,
            ).map_values(|e: HostStatusEventView| accepted_event(e)).push(accepted_event(src[i as int])));
        }
        i = i + 1;
    }
    assert(src.take(src.len() as int) =~= src);
    *es = out;
}

/// Applies the enabled naive bugs of a naive-mode state to a transaction's
/// commands, frames and host events; returns whether a stale host result
/// was published. Outside naive mode nothing changes.
pub fn apply_naive_bugs(
    commands: &mut Vec<ResourceCommand>,
    frames: &mut Vec<OutputFrame>,
    state: &AppState,
    action: &Action,
    host_events: &mut Vec<HostStatusEvent>,
) -> (stale_mutated: bool)
    ensures
        ({
            let naive = state.mode@ == "naive"@;
            let p = state.deep_view().bug_policy;
            let a = action.deep_view();
            &&& final(commands).deep_view() == naive_commands(p, naive, old(commands).deep_view())
            &&& final(frames).deep_view() == naive_frames(
                p,
                naive,
                a,
                state.inputs.scenario_revision,
                old(frames).deep_view(),
            )
            &&& final(host_events).deep_view() == naive_events(
                p,
                naive,
                a,
                old(host_events).deep_view(),
            )
            &&& stale_mutated == accepts_stale(p, naive, a)
        }),
{
    if !str_eq(state.mode.as_str(), "naive") {
        return false;
    }
    if state.bug_policy.skip_watcher_close {
        retain_commands(commands);
    }
    if state.bug_policy.skip_clear_diagnostics_for_deleted_file {
        retain_frames_not_kind(frames, "ClearDiagnostics");
    }
    let rename = match action {
        Action::RenameSchema => true,
        _ => false,
    };
    if state.bug_policy.skip_document_link_rebaseline && rename {
        retain_frames_not_app_links(frames);
    }
    let inject = match action {
        Action::InjectStaleAnalysisResult => true,
        _ => false,
    };
    if state.bug_policy.accept_stale_analysis_results && inject {
        mark_accepted(host_events);
        frames.push(stale_diagnostic_frame(state.inputs.scenario_revision));
        return true;
    }
    false
}

} // verus!
