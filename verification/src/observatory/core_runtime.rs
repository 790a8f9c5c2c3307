//! The engine's transactions as a reconciling graph sees them: the
//! projection of one committed transaction into resource commands, output
//! frames and audit edges.
//!
//! The graph is a model. Each call works on a fresh graph: `bootstrap`
//! commits the graph's first transaction, and `transition` commits the
//! second, on a graph bootstrapped with the state before. The graph's
//! revision is its transaction number, and the phase trace that a
//! transaction leaves is recorded by its resource-planning phase.
use vstd::prelude::*;
use crate::observatory::engine::{empty_full, empty_full_spec};
use crate::observatory::projection::{output_frames, output_frames_spec, plan_commands, plan_of, workspace_scope};
use crate::observatory::types::{
    CanonicalInputs, FullState, FullStateView, OutputFrame, ResourceCommand, Revision,
};
use crate::strmap::{views, StrMap};
use crate::text::{append, owned};

verus! {

/// What one committed transaction produced.
pub struct CoreProjection {
    /// The graph's transaction number.
    pub transaction_id: u64,
    /// The graph's revision.
    pub revision: u64,
    /// The resource plan, as engine commands.
    pub resource_commands: Vec<ResourceCommand>,
    /// The output frames, as engine frames.
    pub output_frames: Vec<OutputFrame>,
    /// The audit edges of the transaction.
    pub audit_edges: Vec<String>,
}

/// The audit edges a committed graph transaction leaves: its phases.
pub open spec fn core_audit_edges_spec() -> Seq<Seq<char>> {
    seq!["trellis-core::ProduceResourcePlans"@]
}

/// The audit edges a committed graph transaction leaves.
pub fn core_audit_edges() -> (r: Vec<String>)
    ensures
        r.deep_view() == core_audit_edges_spec(),
{
    let r = vec![owned("trellis-core::ProduceResourcePlans")];
    assert(r.deep_view() =~= core_audit_edges_spec());
    r
}

/// A transition from one engine state to the next.
pub struct CoreTransition<'a> {
    /// Inputs before.
    pub before_inputs: &'a CanonicalInputs,
    /// Analysis revisions before.
    pub before_analysis: &'a StrMap<u32>,
    /// Recomputed state before.
    pub before_full: &'a FullState,
    /// Inputs after.
    pub after_inputs: &'a CanonicalInputs,
    /// Analysis revisions after.
    pub after_analysis: &'a StrMap<u32>,
    /// Recomputed state after.
    pub after_full: &'a FullState,
    /// The engine revision the commands carry.
    pub app_revision: Revision,
    /// The label of the transition.
    pub label: &'a str,
}

/// The projection of a transaction that takes the graph from `before` to
/// `after` within the workspace scope of `branch`: a resource plan from
/// the desired resources before to those after, the output frames from
/// the outputs before to those after, and the audit edges; `tx` is the
/// graph's transaction and revision number.
pub open spec fn projection_ok(
    r: &CoreProjection,
    tx: u64,
    before: FullStateView,
    after: FullStateView,
    branch: Seq<char>,
    app_revision: Revision,
    label: Seq<char>,
) -> bool {
    &&& r.transaction_id == tx
    &&& r.revision == tx
    &&& plan_of(
        before.desired_resources.to_set(),
        after.desired_resources.to_set(),
        workspace_scope(branch),
        app_revision,
        label,
        r.resource_commands.deep_view(),
    )
    &&& r.output_frames.deep_view() == output_frames_spec(before, after, app_revision, label)
    &&& r.audit_edges.deep_view() == core_audit_edges_spec()
}

fn project(before: &FullState, after: &FullState, branch: &str, tx: u64, app_revision: Revision, label: &str) -> (r:
    CoreProjection)
    ensures
        projection_ok(&r, tx, before.deep_view(), after.deep_view(), branch@, app_revision, label@),
{
    assert(before.deep_view().desired_resources =~= views(before.desired_resources@));
    assert(after.deep_view().desired_resources =~= views(after.desired_resources@));
    let mut ws = owned("WorkspaceScope(");
    append(&mut ws, branch);
    append(&mut ws, ")");
    assert(ws@ == workspace_scope(branch@));
    CoreProjection {
        transaction_id: tx,
        revision: tx,
        resource_commands: plan_commands(
            before.desired_resources.as_slice(),
            after.desired_resources.as_slice(),
            ws.as_str(),
            app_revision,
            label,
        ),
        output_frames: output_frames(before, after, app_revision, label),
        audit_edges: core_audit_edges(),
    }
}

/// The first transaction of a fresh graph for the inputs: it opens every
/// desired resource and baselines every output of `full`, at the inputs'
/// scenario revision, labelled `Open main branch`.
pub fn bootstrap(inputs: &CanonicalInputs, analysis_revisions: &StrMap<u32>, full: &FullState) -> (r: CoreProjection)
    ensures
        projection_ok(
            &r,
            1,
            empty_full_spec(),
            full.deep_view(),
            inputs.active_branch@,
            inputs.scenario_revision,
            "Open main branch"@,
        ),
{
    let empty = empty_full();
    project(&empty, full, inputs.active_branch.as_str(), 1, inputs.scenario_revision, "Open main branch")
}

/// A transaction on a graph bootstrapped with the state before: it takes
/// the desired resources and the outputs from those before to those after,
/// within the workspace scope of the branch before.
pub fn transition(input: CoreTransition<'_>) -> (r: CoreProjection)
    ensures
        projection_ok(
            &r,
            2,
            input.before_full.deep_view(),
            input.after_full.deep_view(),
            input.before_inputs.active_branch@,
            input.app_revision,
            input.label@,
        ),
{
    project(
        input.before_full,
        input.after_full,
        input.before_inputs.active_branch.as_str(),
        2,
        input.app_revision,
        input.label,
    )
}

} // verus!
