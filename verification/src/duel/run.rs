//! Running a duel: the callback side and the reconciling side follow the
//! same chaotic session, and the outcome compares them.
use vstd::prelude::*;
use crate::dup::Dup;
use crate::duel::present::{inputs_text_spec, law_counted_ledger_is_reconciled, lemma_total_bound, map_stats, receipt_for, receipt_spec, rows, rows_spec, stats, total};
use crate::duel::sim::{
    apply_event, apply_event_spec, apply_naive, counted, counted_spec, desired_attachments, desired_spec, event_spec,
    initial_inputs, initial_inputs_spec, inputs_ok, lemma_event_keeps_inputs_ok, lemma_initial_inputs_ok,
    lemma_inputs_ok_bounds, lemma_naive_counts_bound, naive_counts, naive_note, next_event, replayed, short_key,
    short_key_spec, Rng,
};
use crate::strmap::{least, lemma_least, lemma_ordered, lemma_ordered_finite, ordered, sorted};
use crate::duel::types::{
    Activity, ActivityView, ChatInputs, ChatInputsView, CommandProof, CommandProofView, DiffProof, DiffProofView,
    DuelProof, DuelProofView, InvariantResult, InvariantResultView, LeakDuelRequest, LeakDuelRequestView,
    LeakDuelState, LeakDuelStateView, SideStats, SideStatsView,
};
use crate::strmap::{views, StrMap, StrSet};
use crate::text::{append, dec, owned, push_dec};

verus! {

// ---------------------------------------------------------------------
// The reconciling side
// ---------------------------------------------------------------------
/// `event -> cause -> [KIND] label`.
pub open spec fn cause_text(event_label: Seq<char>, cause: Seq<char>, kind: Seq<char>, label: Seq<char>) -> Seq<char> {
    event_label + " -> "@ + cause + " -> ["@ + kind + "] "@ + label
}

/// The record of an open the plan issued for `k` in transaction `t`.
pub open spec fn open_proof(k: Seq<char>, event_label: Seq<char>, t: u64) -> CommandProofView {
    CommandProofView {
        kind: "OPEN"@,
        key: k,
        label: k,
        scope: "chat-session"@,
        scope_id: 1,
        transaction_id: t,
        revision: t,
        cause: cause_text(event_label, "desiredAttachments added this key"@, "OPEN"@, k),
        applied_ledger_result: "open=1"@,
    }
}

/// The record of a close the plan issued for `k` in transaction `t`.
pub open spec fn close_proof(k: Seq<char>, event_label: Seq<char>, t: u64) -> CommandProofView {
    CommandProofView {
        kind: "CLOSE"@,
        key: k,
        label: short_key_spec(k),
        scope: "chat-session"@,
        scope_id: 1,
        transaction_id: t,
        revision: t,
        cause: cause_text(event_label, "desiredAttachments removed this key"@, "CLOSE"@, short_key_spec(k)),
        applied_ledger_result: "open=0"@,
    }
}

/// The records of a plan: an open for each newly desired key, then a
/// close for each key no longer desired, each in key order.
pub open spec fn plan_commands(before: Set<Seq<char>>, after: Set<Seq<char>>, event_label: Seq<char>, t: u64) -> Seq<CommandProofView> {
    let opened = ordered(after.difference(before));
    let closed = ordered(before.difference(after));
    Seq::new(opened.len(), |i: int| open_proof(opened[i], event_label, t)) + Seq::new(
        closed.len(),
        |i: int| close_proof(closed[i], event_label, t),
    )
}

/// The last record of each key, after a plan.
pub open spec fn plan_actions(
    m: Map<Seq<char>, CommandProofView>,
    before: Set<Seq<char>>,
    after: Set<Seq<char>>,
    event_label: Seq<char>,
    t: u64,
) -> Map<Seq<char>, CommandProofView> {
    Map::new(
        |k: Seq<char>| m.contains_key(k) || after.difference(before).contains(k) || before.difference(after).contains(k),
        |k: Seq<char>| if after.difference(before).contains(k) {
            open_proof(k, event_label, t)
        } else if before.difference(after).contains(k) {
            close_proof(k, event_label, t)
        } else {
            m[k]
        },
    )
}

/// The handle ledger after a plan: one handle for each opened key, none
/// for each closed key.
pub open spec fn plan_ledger(m: Map<Seq<char>, u32>, before: Set<Seq<char>>, after: Set<Seq<char>>) -> Map<Seq<char>, u32> {
    Map::new(
        |k: Seq<char>| (m.contains_key(k) && !before.difference(after).contains(k)) || after.difference(before).contains(k),
        |k: Seq<char>| if after.difference(before).contains(k) { 1u32 } else { m[k] },
    )
}

/// What a plan did, in words.
pub open spec fn plan_note(before: Set<Seq<char>>, after: Set<Seq<char>>) -> Seq<char> {
    dec(after.difference(before).len()) + " open, "@ + dec(before.difference(after).len())
        + " close from the resource plan"@
}

/// The reconciling side: it keeps the desired collection of the inputs
/// and turns each change of it into a resource plan.
pub struct TrellisSide {
    desired: StrSet,
    last_action: StrMap<CommandProof>,
    last_commands: Vec<CommandProof>,
    transaction_id: u64,
    revision: u64,
}

/// What a `TrellisSide` holds, as mathematical values.
pub struct TrellisSideView {
    /// The desired collection as of the last transaction.
    pub desired: Set<Seq<char>>,
    /// The last record of each key.
    pub last_action: Map<Seq<char>, CommandProofView>,
    /// The records of the last plan.
    pub last_commands: Seq<CommandProofView>,
    /// The last transaction.
    pub transaction_id: u64,
    /// The last revision.
    pub revision: u64,
}

impl View for TrellisSide {
    type V = TrellisSideView;

    closed spec fn view(&self) -> TrellisSideView {
        TrellisSideView {
            desired: self.desired@,
            last_action: self.last_action@,
            last_commands: self.last_commands.deep_view(),
            transaction_id: self.transaction_id,
            revision: self.revision,
        }
    }
}

fn open_command(k: &String, event_label: &str, t: u64) -> (r: CommandProof)
    ensures
        r.deep_view() == open_proof(k@, event_label@, t),
{
    let mut cause = owned(event_label);
    append(&mut cause, " -> desiredAttachments added this key -> [OPEN] ");
    append(&mut cause, k.as_str());
    proof {
        reveal_strlit(" -> desiredAttachments added this key -> [OPEN] ");
        reveal_strlit(" -> ");
        reveal_strlit("desiredAttachments added this key");
        reveal_strlit(" -> [");
        reveal_strlit("OPEN");
        reveal_strlit("] ");
        assert(cause@ =~= cause_text(event_label@, "desiredAttachments added this key"@, "OPEN"@, k@));
    }
    CommandProof {
        kind: owned("OPEN"),
        key: k.dup(),
        label: k.dup(),
        scope: owned("chat-session"),
        scope_id: 1,
        transaction_id: t,
        revision: t,
        cause,
        applied_ledger_result: owned("open=1"),
    }
}

fn close_command(k: &String, event_label: &str, t: u64) -> (r: CommandProof)
    ensures
        r.deep_view() == close_proof(k@, event_label@, t),
{
    let label = short_key(k.as_str());
    let mut cause = owned(event_label);
    append(&mut cause, " -> desiredAttachments removed this key -> [CLOSE] ");
    append(&mut cause, label.as_str());
    proof {
        reveal_strlit(" -> desiredAttachments removed this key -> [CLOSE] ");
        reveal_strlit(" -> ");
        reveal_strlit("desiredAttachments removed this key");
        reveal_strlit(" -> [");
        reveal_strlit("CLOSE");
        reveal_strlit("] ");
        assert(cause@ =~= cause_text(event_label@, "desiredAttachments removed this key"@, "CLOSE"@, label@));
    }
    CommandProof {
        kind: owned("CLOSE"),
        key: k.dup(),
        label,
        scope: owned("chat-session"),
        scope_id: 1,
        transaction_id: t,
        revision: t,
        cause,
        applied_ledger_result: owned("open=0"),
    }
}

/// `m` with one handle for each of `ks`.
pub open spec fn opened_ledger(m: Map<Seq<char>, u32>, ks: Seq<Seq<char>>) -> Map<Seq<char>, u32> {
    Map::new(|k: Seq<char>| m.contains_key(k) || ks.contains(k), |k: Seq<char>| if ks.contains(k) { 1u32 } else { m[k] })
}

/// `m` without the keys `ks`.
pub open spec fn dropped_ledger(m: Map<Seq<char>, u32>, ks: Seq<Seq<char>>) -> Map<Seq<char>, u32> {
    Map::new(|k: Seq<char>| m.contains_key(k) && !ks.contains(k), |k: Seq<char>| m[k])
}

/// `a` with the record of an open for each of `ks`.
pub open spec fn opened_actions(a: Map<Seq<char>, CommandProofView>, ks: Seq<Seq<char>>, event_label: Seq<char>, t: u64) -> Map<Seq<char>, CommandProofView> {
    Map::new(
        |k: Seq<char>| a.contains_key(k) || ks.contains(k),
        |k: Seq<char>| if ks.contains(k) { open_proof(k, event_label, t) } else { a[k] },
    )
}

/// `a` with the record of a close for each of `ks`.
pub open spec fn closed_actions(a: Map<Seq<char>, CommandProofView>, ks: Seq<Seq<char>>, event_label: Seq<char>, t: u64) -> Map<Seq<char>, CommandProofView> {
    Map::new(
        |k: Seq<char>| a.contains_key(k) || ks.contains(k),
        |k: Seq<char>| if ks.contains(k) { close_proof(k, event_label, t) } else { a[k] },
    )
}

/// The open records for the keys, in order.
pub open spec fn open_proofs(ks: Seq<Seq<char>>, event_label: Seq<char>, t: u64) -> Seq<CommandProofView> {
    Seq::new(ks.len(), |i: int| open_proof(ks[i], event_label, t))
}

/// The close records for the keys, in order.
pub open spec fn close_proofs(ks: Seq<Seq<char>>, event_label: Seq<char>, t: u64) -> Seq<CommandProofView> {
    Seq::new(ks.len(), |i: int| close_proof(ks[i], event_label, t))
}

impl TrellisSide {
    /// Commits a transaction that moves the desired collection to `after`,
    /// applies its resource plan to the handle ledger `open`, and returns
    /// what the plan did, in words.
    fn apply_plan(&mut self, after: StrSet, open: &mut StrMap<u32>, event_label: &str) -> (note: String)
        requires
            old(self)@.transaction_id < u64::MAX,
        ensures
            final(self)@ == (TrellisSideView {
                desired: after@,
                last_action: plan_actions(
                    old(self)@.last_action,
                    old(self)@.desired,
                    after@,
                    event_label@,
                    (old(self)@.transaction_id + 1) as u64,
                ),
                last_commands: plan_commands(
                    old(self)@.desired,
                    after@,
                    event_label@,
                    (old(self)@.transaction_id + 1) as u64,
                ),
                transaction_id: (old(self)@.transaction_id + 1) as u64,
                revision: (old(self)@.transaction_id + 1) as u64,
            }),
            final(open)@ == plan_ledger(old(open)@, old(self)@.desired, after@),
            note@ == plan_note(old(self)@.desired, after@),
    {
        let t = self.transaction_id + 1;
        let ghost b = self.desired@;
        let ghost m0 = open@;
        let ghost a0 = self.last_action@;
        let added = after.difference(&self.desired);
        let removed = self.desired.difference(&after);
        proof {
            crate::strmap::lemma_sorted_no_dup(views(added@));
            crate::strmap::lemma_sorted_no_dup(views(removed@));
            lemma_ordered(views(added@));
            lemma_ordered(views(removed@));
            views(added@).unique_seq_to_set();
            views(removed@).unique_seq_to_set();
        }
        let ghost qa = views(added@);
        let ghost qr = views(removed@);
        let ghost d_add = after@.difference(b);
        let ghost d_rem = b.difference(after@);
        let mut commands: Vec<CommandProof> = Vec::new();
        proof {
            assert(qa.take(0) =~= Seq::<Seq<char>>::empty());
            assert(open@ =~= opened_ledger(m0, qa.take(0)));
            assert(self.last_action@ =~= opened_actions(a0, qa.take(0), event_label@, t));
            assert(commands.deep_view() =~= open_proofs(qa.take(0), event_label@, t));
        }
        let mut i: usize = 0;
        while i < added.len()
            invariant
                i <= qa.len(),
                qa == views(added@),
                qa.to_set() == d_add,
                open@ == opened_ledger(m0, qa.take(i as int)),
                self.last_action@ == opened_actions(a0, qa.take(i as int), event_label@, t),
                commands.deep_view() == open_proofs(qa.take(i as int), event_label@, t),
                t == old(self)@.transaction_id + 1,
                self.desired@ == b,
            decreases qa.len() - i,
        {
            let k = &added[i];
            proof {
                assert(qa.take(i + 1) =~= qa.take(i as int).push(k@));
                crate::strmap::lemma_push_contains(qa.take(i as int), k@);
            }
            open.insert(k.dup(), 1);
            let c = open_command(k, event_label, t);
            self.last_action.insert(k.dup(), c.dup());
            let ghost prev = commands.deep_view();
            commands.push(c);
            proof {
                assert(commands.deep_view() =~= prev.push(open_proof(k@, event_label@, t)));
                assert(open_proofs(qa.take(i + 1), event_label@, t) =~= open_proofs(qa.take(i as int), event_label@, t).push(open_proof(k@, event_label@, t)));
                assert(commands.deep_view() =~= open_proofs(qa.take(i + 1), event_label@, t));
                assert(open@ =~= opened_ledger(m0, qa.take(i + 1)));
                assert(self.last_action@ =~= opened_actions(a0, qa.take(i + 1), event_label@, t));
            }
            i = i + 1;
        }
        proof {
            assert(qa.take(qa.len() as int) =~= qa);
            assert(qr.take(0) =~= Seq::<Seq<char>>::empty());
            assert(open@ =~= dropped_ledger(open@, qr.take(0)));
            assert(self.last_action@ =~= closed_actions(self.last_action@, qr.take(0), event_label@, t));
            assert(commands.deep_view() =~= open_proofs(qa, event_label@, t) + close_proofs(qr.take(0), event_label@, t));
        }
        let ghost m1 = open@;
        let ghost a1 = self.last_action@;
        let mut j: usize = 0;
        while j < removed.len()
            invariant
                j <= qr.len(),
                qr == views(removed@),
                open@ == dropped_ledger(m1, qr.take(j as int)),
                self.last_action@ == closed_actions(a1, qr.take(j as int), event_label@, t),
                commands.deep_view() == open_proofs(qa, event_label@, t) + close_proofs(qr.take(j as int), event_label@, t),
                t == old(self)@.transaction_id + 1,
                self.desired@ == b,
            decreases qr.len() - j,
        {
            let k = &removed[j];
            proof {
                assert(qr.take(j + 1) =~= qr.take(j as int).push(k@));
                crate::strmap::lemma_push_contains(qr.take(j as int), k@);
            }
            open.remove(k.as_str());
            let c = close_command(k, event_label, t);
            self.last_action.insert(k.dup(), c.dup());
            let ghost prev = commands.deep_view();
            commands.push(c);
            proof {
                assert(close_proofs(qr.take(j + 1), event_label@, t) =~= close_proofs(qr.take(j as int), event_label@, t).push(close_proof(k@, event_label@, t)));
                assert(commands.deep_view() =~= prev.push(close_proof(k@, event_label@, t)));
                assert(commands.deep_view() =~= open_proofs(qa, event_label@, t) + close_proofs(qr.take(j + 1), event_label@, t));
                assert(open@ =~= dropped_ledger(m1, qr.take(j + 1)));
                assert(self.last_action@ =~= closed_actions(a1, qr.take(j + 1), event_label@, t));
            }
            j = j + 1;
        }
        proof {
            assert(qr.take(qr.len() as int) =~= qr);
            assert(qr.to_set() == d_rem);
            assert forall|k: Seq<char>| qa.contains(k) <==> d_add.contains(k) by {
                assert(qa.to_set().contains(k) == qa.contains(k));
            }
            assert forall|k: Seq<char>| qr.contains(k) <==> d_rem.contains(k) by {
                assert(qr.to_set().contains(k) == qr.contains(k));
            }
            assert(open@ =~= plan_ledger(m0, b, after@));
            assert(self.last_action@ =~= plan_actions(a0, b, after@, event_label@, t));
            assert(commands.deep_view() =~= plan_commands(b, after@, event_label@, t));
        }
        let n_open = added.len() as u64;
        let n_close = removed.len() as u64;
        self.last_commands = commands;
        self.transaction_id = t;
        self.revision = t;
        self.desired = after;
        let mut note = String::new();
        push_dec(&mut note, n_open);
        append(&mut note, " open, ");
        push_dec(&mut note, n_close);
        append(&mut note, " close from the resource plan");
        proof {
            assert(note@ =~= plan_note(b, self.desired@));
        }
        note
    }
}

/// A ledger that held one handle per key of `before` holds, after the
/// plan from `before` to `after`, one handle per key of `after`: the
/// reconciling side never leaks, orphans or duplicates a handle.
pub proof fn law_plan_keeps_ledger_counted(before: Set<Seq<char>>, after: Set<Seq<char>>)
    ensures
        plan_ledger(counted_spec(before), before, after) == counted_spec(after),
{
    assert(plan_ledger(counted_spec(before), before, after) =~= counted_spec(after));
}

/// The reconciling side after its bootstrap transaction for the desired
/// set `d`.
pub open spec fn bootstrap_view(d: Set<Seq<char>>) -> TrellisSideView {
    TrellisSideView {
        desired: d,
        last_action: plan_actions(Map::empty(), Set::empty(), d, "bootstrap"@, 1),
        last_commands: plan_commands(Set::empty(), d, "bootstrap"@, 1),
        transaction_id: 1,
        revision: 1,
    }
}

impl TrellisSide {
    /// The reconciling side for the inputs, after its bootstrap
    /// transaction, and its handle ledger.
    pub fn new(inputs: &ChatInputs) -> (r: (TrellisSide, StrMap<u32>))
        ensures
            r.0@ == bootstrap_view(desired_spec(inputs.deep_view())),
            r.1@ == counted_spec(desired_spec(inputs.deep_view())),
    {
        let mut side = TrellisSide {
            desired: StrSet::new(),
            last_action: StrMap::new(),
            last_commands: Vec::new(),
            transaction_id: 0,
            revision: 0,
        };
        let mut open: StrMap<u32> = StrMap::new();
        let after = desired_attachments(inputs);
        let ghost d = after@;
        let _ = side.apply_plan(after, &mut open, "bootstrap");
        proof {
            assert(Map::<Seq<char>, u32>::empty() =~= counted_spec(Set::<Seq<char>>::empty()));
            law_plan_keeps_ledger_counted(Set::<Seq<char>>::empty(), d);
        }
        (side, open)
    }

    /// Commits a transaction with the new inputs and applies its resource
    /// plan to the handle ledger; returns what the plan did, in words.
    pub fn apply(&mut self, inputs: &ChatInputs, open: &mut StrMap<u32>, event_label: &str) -> (note: String)
        requires
            old(self)@.transaction_id < u64::MAX,
        ensures
            final(self)@ == (TrellisSideView {
                desired: desired_spec(inputs.deep_view()),
                last_action: plan_actions(
                    old(self)@.last_action,
                    old(self)@.desired,
                    desired_spec(inputs.deep_view()),
                    event_label@,
                    (old(self)@.transaction_id + 1) as u64,
                ),
                last_commands: plan_commands(
                    old(self)@.desired,
                    desired_spec(inputs.deep_view()),
                    event_label@,
                    (old(self)@.transaction_id + 1) as u64,
                ),
                transaction_id: (old(self)@.transaction_id + 1) as u64,
                revision: (old(self)@.transaction_id + 1) as u64,
            }),
            final(open)@ == plan_ledger(old(open)@, old(self)@.desired, desired_spec(inputs.deep_view())),
            note@ == plan_note(old(self)@.desired, desired_spec(inputs.deep_view())),
    {
        let after = desired_attachments(inputs);
        self.apply_plan(after, open, event_label)
    }
}

// ---------------------------------------------------------------------
// The session, tick by tick
// ---------------------------------------------------------------------
/// The whole state of a duel between ticks.
pub struct DuelSim {
    /// Generator state.
    pub rng: u64,
    /// Current inputs.
    pub inputs: ChatInputsView,
    /// Handles the callback side holds.
    pub naive: Map<Seq<char>, u32>,
    /// Handles the reconciling side holds.
    pub trellis: Map<Seq<char>, u32>,
    /// The reconciling side.
    pub side: TrellisSideView,
    /// What each tick did.
    pub activity: Seq<ActivityView>,
    /// The desired set before the last tick.
    pub before: Set<Seq<char>>,
}

/// The first activity entry.
pub open spec fn initial_activity() -> ActivityView {
    ActivityView {
        tick: 0,
        label: "Open initial workspace"@,
        detail: "atlas workspace derives joined rooms, grants, follows, and network into attachment streams."@,
        naive_note: "callback ledger starts correct"@,
        trellis_note: "initial resource plan opens the same desired set"@,
    }
}

/// The generator seed of a duel.
pub open spec fn duel_seed(seed: u64, chaos: u8) -> u64 {
    seed ^ ((chaos as u64) << 32u64)
}

/// The duel before any tick.
pub open spec fn sim_start(seed: u64, chaos: u8) -> DuelSim {
    let i = initial_inputs_spec();
    let d = desired_spec(i);
    DuelSim {
        rng: duel_seed(seed, chaos),
        inputs: i,
        naive: counted_spec(d),
        trellis: counted_spec(d),
        side: bootstrap_view(d),
        activity: seq![initial_activity()],
        before: Set::empty(),
    }
}

/// One tick: an event changes the inputs, the callback handlers react to
/// it, and the reconciling side commits the new inputs.
pub open spec fn sim_step(s: DuelSim, tick: u32, chaos: u8) -> DuelSim {
    let b = desired_spec(s.inputs);
    let (e, r) = event_spec(s.rng, tick, chaos, s.inputs);
    let i = apply_event_spec(s.inputs, e);
    let a = desired_spec(i);
    let t = (s.side.transaction_id + 1) as u64;
    DuelSim {
        rng: r,
        inputs: i,
        naive: naive_counts(s.naive, b, a, e, chaos),
        trellis: plan_ledger(s.trellis, s.side.desired, a),
        side: TrellisSideView {
            desired: a,
            last_action: plan_actions(s.side.last_action, s.side.desired, a, e.label, t),
            last_commands: plan_commands(s.side.desired, a, e.label, t),
            transaction_id: t,
            revision: t,
        },
        activity: s.activity.push(
            ActivityView {
                tick,
                label: e.label,
                detail: e.detail,
                naive_note: naive_note(b, a, e, chaos),
                trellis_note: plan_note(s.side.desired, a),
            },
        ),
        before: b,
    }
}

/// The duel after `n` ticks.
pub open spec fn sim_after(seed: u64, chaos: u8, n: nat) -> DuelSim
    decreases n,
{
    if n == 0 {
        sim_start(seed, chaos)
    } else {
        sim_step(sim_after(seed, chaos, (n - 1) as nat), n as u32, chaos)
    }
}

/// After any number of ticks the reconciling side holds one handle for
/// each desired attachment and nothing else, and has committed one
/// transaction per tick after its bootstrap.
pub proof fn law_trellis_side_stays_reconciled(seed: u64, chaos: u8, n: nat)
    requires
        n < u64::MAX,
    ensures
        sim_after(seed, chaos, n).trellis == counted_spec(desired_spec(sim_after(seed, chaos, n).inputs)),
        sim_after(seed, chaos, n).side.desired == desired_spec(sim_after(seed, chaos, n).inputs),
        sim_after(seed, chaos, n).side.transaction_id == n + 1,
    decreases n,
{
    if n > 0 {
        law_trellis_side_stays_reconciled(seed, chaos, (n - 1) as nat);
        let s = sim_after(seed, chaos, (n - 1) as nat);
        let a = sim_after(seed, chaos, n).inputs;
        law_plan_keeps_ledger_counted(s.side.desired, desired_spec(a));
    }
}

// ---------------------------------------------------------------------
// The outcome
// ---------------------------------------------------------------------
/// The seed of a request (1337 unless given).
pub open spec fn request_seed(r: LeakDuelRequestView) -> u64 {
    match r.seed {
        Some(x) => x,
        None => 1337,
    }
}

/// The chaos level of a request (7 unless given, at most 10).
pub open spec fn request_chaos(r: LeakDuelRequestView) -> u8 {
    let c: u8 = match r.chaos {
        Some(x) => x,
        None => 7,
    };
    if c < 10 {
        c
    } else {
        10
    }
}

/// The number of ticks of a request (18 unless given, at most 120).
pub open spec fn request_ticks(r: LeakDuelRequestView) -> u32 {
    let t: u32 = match r.ticks {
        Some(x) => x,
        None => 18,
    };
    if t < 120 {
        t
    } else {
        120
    }
}

/// The key to explain: the requested one if it is desired or open on the
/// callback side, else the first desired key, else the first key open on
/// the callback side, else `attachment:none`.
pub open spec fn selected_spec(requested: Option<Seq<char>>, should: Set<Seq<char>>, naive: Map<Seq<char>, u32>) -> Seq<char> {
    if requested is Some && (should.contains(requested->0) || naive.contains_key(requested->0)) {
        requested->0
    } else if !should.is_empty() {
        least(should)
    } else if !naive.dom().is_empty() {
        least(naive.dom())
    } else {
        "attachment:none"@
    }
}

/// The cause of the last record of each key.
pub open spec fn causes(m: Map<Seq<char>, CommandProofView>) -> Map<Seq<char>, Seq<char>> {
    Map::new(|k: Seq<char>| m.contains_key(k), |k: Seq<char>| m[k].cause)
}

/// A signed number in decimal.
pub open spec fn int_text(d: i32) -> Seq<char> {
    if d < 0 {
        "-"@ + dec((-d) as nat)
    } else {
        dec(d as nat)
    }
}

/// A named check and whether it held.
pub open spec fn check_spec(name: Seq<char>, passed: bool) -> InvariantResultView {
    InvariantResultView {
        name,
        passed,
        detail: if passed {
            "pass"@
        } else {
            "fail"@
        },
    }
}

/// The duel's checks: the reconciling side is exact, and the callback
/// side drifted.
pub open spec fn invariants_spec(naive: SideStatsView, trellis: SideStatsView) -> Seq<InvariantResultView> {
    seq![
        check_spec("Trellis open == shouldOpen"@, trellis.open == trellis.should_open),
        check_spec("Trellis delta == 0"@, trellis.delta == 0),
        check_spec("Trellis orphaned == 0"@, trellis.orphaned == 0),
        check_spec("Trellis duplicateHandles == 0"@, trellis.duplicate_handles == 0),
        InvariantResultView {
            name: "callback drift observed"@,
            passed: naive.delta != 0 || naive.orphaned > 0 || naive.duplicate_handles > 0,
            detail: "delta="@ + int_text(naive.delta) + ", orphaned="@ + dec(naive.orphaned as nat)
                + ", duplicateHandles="@ + dec(naive.duplicate_handles as nat),
        },
    ]
}

/// The change of the desired set.
pub open spec fn diff_spec(before: Set<Seq<char>>, after: Set<Seq<char>>) -> DiffProofView {
    DiffProofView {
        added: ordered(after.difference(before)),
        removed: ordered(before.difference(after)),
        unchanged: ordered(after.intersect(before)),
    }
}

/// The diff of two finite sets of keys splits them: what was added and
/// what was kept make up the set after, what was removed and what was
/// kept make up the set before, no key is in two parts, and each part
/// lists its keys in increasing order.
pub proof fn law_diff_partitions(before: Set<Seq<char>>, after: Set<Seq<char>>)
    requires
        before.finite(),
        after.finite(),
    ensures
        ({
            let d = diff_spec(before, after);
            &&& d.added.to_set() + d.unchanged.to_set() == after
            &&& d.removed.to_set() + d.unchanged.to_set() == before
            &&& forall|x: Seq<char>| !(d.added.contains(x) && d.unchanged.contains(x))
            &&& forall|x: Seq<char>| !(d.removed.contains(x) && d.unchanged.contains(x))
            &&& forall|x: Seq<char>| !(d.added.contains(x) && d.removed.contains(x))
            &&& sorted(d.added) && sorted(d.removed) && sorted(d.unchanged)
        }),
{
    let d = diff_spec(before, after);
    lemma_ordered_finite(after.difference(before));
    lemma_ordered_finite(before.difference(after));
    lemma_ordered_finite(after.intersect(before));
    assert forall|x: Seq<char>| d.added.contains(x) == d.added.to_set().contains(x) by {}
    assert forall|x: Seq<char>| d.removed.contains(x) == d.removed.to_set().contains(x) by {}
    assert forall|x: Seq<char>| d.unchanged.contains(x) == d.unchanged.to_set().contains(x) by {}
    assert(d.added.to_set() + d.unchanged.to_set() =~= after);
    assert(d.removed.to_set() + d.unchanged.to_set() =~= before);
}

/// The evidence of a duel.
pub open spec fn proof_spec(
    seed: u64,
    chaos: u8,
    ticks: u32,
    selected: Seq<char>,
    s: DuelSim,
    naive: SideStatsView,
    trellis: SideStatsView,
) -> DuelProofView {
    DuelProofView {
        wasm_bundle: "demos/leak-duel/engine/trellis_observatory_engine_bg.wasm"@,
        rust_source: "crates/trellis-observatory-engine/src/leak_duel.rs"@,
        ui_source: "demos/leak-duel/leak-duel.js"@,
        input_node: "chatInputs"@,
        collection: "desiredAttachments"@,
        scope: "chat-session"@,
        transaction_id: s.side.transaction_id,
        revision: s.side.revision,
        deterministic_replay: "seed="@ + dec(seed as nat) + " chaos="@ + dec(chaos as nat) + " ticks="@ + dec(
            ticks as nat,
        ) + " selected="@ + selected,
        desired_diff: diff_spec(s.before, desired_spec(s.inputs)),
        current_commands: s.side.last_commands,
        selected_command: if s.side.last_action.contains_key(selected) {
            Some(s.side.last_action[selected])
        } else {
            None
        },
        invariants: invariants_spec(naive, trellis),
    }
}

/// The outcome of a duel with the given parameters, for the requested key.
pub open spec fn outcome_spec(seed: u64, chaos: u8, ticks: u32, requested: Option<Seq<char>>) -> LeakDuelStateView {
    let s = sim_after(seed, chaos, ticks as nat);
    let should = desired_spec(s.inputs);
    let selected = selected_spec(requested, should, s.naive);
    let naive = map_stats(s.naive, should, "drift"@);
    let trellis = map_stats(s.trellis, should, "reconciled"@);
    LeakDuelStateView {
        seed,
        chaos,
        tick: ticks,
        inputs: s.inputs,
        should_open: ordered(should),
        rows: rows_spec(should, s.naive, s.trellis),
        naive,
        trellis,
        activity: s.activity,
        selected_receipt: receipt_spec(selected, inputs_text_spec(s.inputs), should, causes(s.side.last_action)),
        proof: proof_spec(seed, chaos, ticks, selected, s, naive, trellis),
    }
}

/// The outcome of a duel for a request.
pub open spec fn run_spec(r: LeakDuelRequestView) -> LeakDuelStateView {
    outcome_spec(request_seed(r), request_chaos(r), request_ticks(r), r.selected)
}

fn push_int(s: &mut String, d: i32)
    ensures
        final(s)@ == old(s)@ + int_text(d),
{
    if d < 0 {
        append(s, "-");
        let m: i64 = -(d as i64);
        push_dec(s, m as u64);
    } else {
        push_dec(s, d as u64);
    }
}

fn check(name: &str, passed: bool) -> (r: InvariantResult)
    ensures
        r.deep_view() == check_spec(name@, passed),
{
    InvariantResult {
        name: owned(name),
        passed,
        detail: if passed {
            owned("pass")
        } else {
            owned("fail")
        },
    }
}

/// The duel's checks.
pub fn duel_invariants(naive: &SideStats, trellis: &SideStats) -> (r: Vec<InvariantResult>)
    ensures
        r.deep_view() == invariants_spec(naive.deep_view(), trellis.deep_view()),
{
    let mut detail = owned("delta=");
    push_int(&mut detail, naive.delta);
    append(&mut detail, ", orphaned=");
    push_dec(&mut detail, naive.orphaned as u64);
    append(&mut detail, ", duplicateHandles=");
    push_dec(&mut detail, naive.duplicate_handles as u64);
    let mut r: Vec<InvariantResult> = Vec::new();
    r.push(check("Trellis open == shouldOpen", trellis.open == trellis.should_open));
    r.push(check("Trellis delta == 0", trellis.delta == 0));
    r.push(check("Trellis orphaned == 0", trellis.orphaned == 0));
    r.push(check("Trellis duplicateHandles == 0", trellis.duplicate_handles == 0));
    r.push(InvariantResult {
        name: owned("callback drift observed"),
        passed: naive.delta != 0 || naive.orphaned > 0 || naive.duplicate_handles > 0,
        detail,
    });
    assert(r.deep_view() =~= invariants_spec(naive.deep_view(), trellis.deep_view()));
    r
}

fn ordered_vec(v: Vec<String>, Ghost(s): Ghost<Set<Seq<char>>>) -> (r: Vec<String>)
    requires
        crate::strmap::sorted(views(v@)),
        views(v@).to_set() == s,
    ensures
        r.deep_view() == ordered(s),
{
    proof {
        lemma_ordered(views(v@));
    }
    assert(v.deep_view() =~= views(v@));
    v
}

/// The change of the desired set.
pub fn diff(before: &StrSet, after: &StrSet) -> (r: DiffProof)
    ensures
        r.deep_view() == diff_spec(before@, after@),
{
    let added = after.difference(before);
    let removed = before.difference(after);
    let unchanged = after.intersection(before);
    DiffProof {
        added: ordered_vec(added, Ghost(after@.difference(before@))),
        removed: ordered_vec(removed, Ghost(before@.difference(after@))),
        unchanged: ordered_vec(unchanged, Ghost(after@.intersect(before@))),
    }
}

fn select(requested: &Option<String>, should: &StrSet, naive: &StrMap<u32>) -> (r: String)
    ensures
        r@ == selected_spec(requested.deep_view(), should@, naive@),
{
    match requested {
        Some(k) => {
            if should.contains(k.as_str()) || naive.contains_key(k.as_str()) {
                return k.dup();
            }
        },
        None => {},
    }
    should.lemma_elems();
    naive.lemma_keys();
    if !should.is_empty() {
        proof {
            if should.elems().len() == 0 {
                assert(should@ =~= Set::<Seq<char>>::empty());
            }
            lemma_least(should.elems());
        }
        return should.elem_at(0).dup();
    }
    if naive.len() > 0 {
        proof {
            lemma_least(naive.keys());
            assert(naive@.dom().contains(naive.keys()[0]));
        }
        return naive.key_at(0).dup();
    }
    proof {
        assert(naive@.dom() =~= Set::<Seq<char>>::empty());
    }
    owned("attachment:none")
}

fn causes_of(m: &StrMap<CommandProof>) -> (r: StrMap<String>)
    ensures
        r@ == causes(m@),
{
    m.lemma_keys();
    let mut r: StrMap<String> = StrMap::new();
    let mut i: usize = 0;
    while i < m.len()
        invariant
            i <= m.keys().len(),
            m.keys().len() == m.vals().len(),
            m@.dom() == m.keys().to_set(),
            forall|j: int| 0 <= j < m.keys().len() ==> #[trigger] m@[m.keys()[j]] == m.vals()[j],
            r@ == causes_of_keys(m@, m.keys().take(i as int)),
        decreases m.keys().len() - i,
    {
        let ghost q = m.keys();
        proof {
            crate::strmap::lemma_push_contains(q.take(i as int), q[i as int]);
            assert(q.take(i + 1) =~= q.take(i as int).push(q[i as int]));
        }
        r.insert(m.key_at(i).dup(), m.val_at(i).cause.dup());
        assert(r@ =~= causes_of_keys(m@, q.take(i + 1)));
        i = i + 1;
    }
    proof {
        assert(m.keys().take(i as int) =~= m.keys());
        assert forall|k: Seq<char>| m.keys().contains(k) <==> m@.contains_key(k) by {
            assert(m.keys().to_set().contains(k) == m.keys().contains(k));
        }
        assert(r@ =~= causes(m@));
    }
    r
}

/// The cause of the last record of each of the keys `ks`.
pub open spec fn causes_of_keys(m: Map<Seq<char>, CommandProofView>, ks: Seq<Seq<char>>) -> Map<Seq<char>, Seq<char>> {
    Map::new(|k: Seq<char>| ks.contains(k), |k: Seq<char>| m[k].cause)
}

fn initial_activity_entry() -> (r: Activity)
    ensures
        r.deep_view() == initial_activity(),
{
    Activity {
        tick: 0,
        label: owned("Open initial workspace"),
        detail: owned(
            "atlas workspace derives joined rooms, grants, follows, and network into attachment streams.",
        ),
        naive_note: owned("callback ledger starts correct"),
        trellis_note: owned("initial resource plan opens the same desired set"),
    }
}

/// The running state of a duel.
struct DuelRun {
    rng: Rng,
    inputs: ChatInputs,
    naive_open: StrMap<u32>,
    trellis: TrellisSide,
    trellis_open: StrMap<u32>,
    activity: Vec<Activity>,
    last_before: StrSet,
}

impl View for DuelRun {
    type V = DuelSim;

    closed spec fn view(&self) -> DuelSim {
        DuelSim {
            rng: self.rng@,
            inputs: self.inputs.deep_view(),
            naive: self.naive_open@,
            trellis: self.trellis_open@,
            side: self.trellis@,
            activity: self.activity.deep_view(),
            before: self.last_before@,
        }
    }
}

/// The bounds a duel keeps up to tick `tick`: inputs within the lists,
/// at most `2 * tick - 1` handles per key and `16 * tick` keys on the
/// callback side.
spec fn run_bounds(s: DuelSim, tick: int) -> bool {
    &&& inputs_ok(s.inputs)
    &&& forall|k: Seq<char>| s.naive.contains_key(k) ==> s.naive[k] <= 2 * tick - 1
    &&& s.naive.dom().finite()
    &&& s.naive.dom().len() <= 16 * tick
}

fn start_run(seed: u64, chaos: u8) -> (d: DuelRun)
    ensures
        d@ == sim_start(seed, chaos),
        run_bounds(d@, 1),
{
    let rng = Rng::new(seed ^ ((chaos as u64) << 32u64));
    let inputs = initial_inputs();
    let initial = desired_attachments(&inputs);
    let naive_open = counted(&initial);
    let (trellis, trellis_open) = TrellisSide::new(&inputs);
    let mut activity: Vec<Activity> = Vec::new();
    activity.push(initial_activity_entry());
    naive_open.lemma_keys();
    let d = DuelRun { rng, inputs, naive_open, trellis, trellis_open, activity, last_before: StrSet::new() };
    proof {
        lemma_initial_inputs_ok();
        lemma_inputs_ok_bounds(initial_inputs_spec());
        assert(d.naive_open@.dom() =~= initial@);
        assert(d.activity.deep_view() =~= seq![initial_activity()]);
        assert(d.last_before@ =~= Set::<Seq<char>>::empty());
        lemma_inputs_ok_bounds(d.inputs.deep_view());
        assert(d@ == sim_start(seed, chaos));
    }
    d
}

#[verifier::spinoff_prover]
fn tick_run(d: &mut DuelRun, tick: u32, chaos: u8, Ghost(seed): Ghost<u64>)
    requires
        1 <= tick <= 120,
        old(d)@ == sim_after(seed, chaos, (tick - 1) as nat),
        run_bounds(old(d)@, tick as int),
    ensures
        final(d)@ == sim_after(seed, chaos, tick as nat),
        run_bounds(final(d)@, tick + 1),
{
    let ghost s0 = old(d)@;
    proof {
        law_trellis_side_stays_reconciled(seed, chaos, (tick - 1) as nat);
        assert(sim_after(seed, chaos, tick as nat) == sim_step(s0, tick, chaos));
        lemma_event_keeps_inputs_ok(d.rng@, tick, chaos, d.inputs.deep_view());
    }
    let ghost old_naive = d.naive_open@;
    let before = desired_attachments(&d.inputs);
    let event = next_event(&mut d.rng, tick, chaos, &d.inputs);
    apply_event(&mut d.inputs, &event);
    let after = desired_attachments(&d.inputs);
    after.lemma_elems();
    proof {
        lemma_ordered(after.elems());
        assert forall|k: Seq<char>| replayed(after@, chaos).contains(k) implies after@.contains(k) by {
            let q = replayed(after@, chaos);
            let j = choose|j: int| 0 <= j < q.len() && q[j] == k;
            assert(after.elems().contains(after.elems()[j]));
            assert(after.elems().to_set().contains(after.elems()[j]));
        }
        lemma_naive_counts_bound(old_naive, before@, after@, event@, chaos, 2 * tick - 1);
    }
    let naive_note = apply_naive(&mut d.naive_open, &before, &after, &event, chaos);
    let trellis_note = d.trellis.apply(&d.inputs, &mut d.trellis_open, event.label.as_str());
    let ghost prev_activity = d.activity.deep_view();
    d.activity.push(Activity { tick, label: event.label, detail: event.detail, naive_note, trellis_note });
    d.last_before = before;
    d.naive_open.lemma_keys();
    proof {
        assert(d.activity.deep_view() =~= sim_after(seed, chaos, tick as nat).activity);
        let nd = d.naive_open@.dom();
        let od = old_naive.dom();
        assert(nd.subset_of(od.union(after@)));
        lemma_inputs_ok_bounds(d.inputs.deep_view());
        vstd::set_lib::lemma_len_union(od, after@);
        vstd::set_lib::lemma_len_subset(nd, od.union(after@));
    }
}

/// Runs a duel: from the initial chat session, each tick draws a seeded
/// chaos event and applies it to the inputs; the callback side reacts
/// with event handlers, the reconciling side commits the inputs and
/// applies its resource plan. The outcome tallies both sides against the
/// desired attachments. Whatever the request, the reconciling side ends
/// with exactly the desired handles: as many as desired, none orphaned,
/// none duplicated.
#[verifier::spinoff_prover]
pub fn run(request: LeakDuelRequest) -> (r: LeakDuelState)
    ensures
        r.deep_view() == run_spec(request.deep_view()),
        r.trellis.open == r.trellis.should_open,
        r.trellis.delta == 0,
        r.trellis.orphaned == 0,
        r.trellis.duplicate_handles == 0,
        r.trellis.verdict@ == "reconciled"@,
{
    let ghost rv = request.deep_view();
    let seed: u64 = match request.seed {
        Some(x) => x,
        None => 1337,
    };
    let c0: u8 = match request.chaos {
        Some(x) => x,
        None => 7,
    };
    let chaos: u8 = if c0 < 10 { c0 } else { 10 };
    let t0: u32 = match request.ticks {
        Some(x) => x,
        None => 18,
    };
    let ticks: u32 = if t0 < 120 { t0 } else { 120 };
    assert(seed == request_seed(rv) && chaos == request_chaos(rv) && ticks == request_ticks(rv));
    let mut d = start_run(seed, chaos);
    let mut tick: u32 = 1;
    while tick <= ticks
        invariant
            1 <= tick <= ticks + 1,
            ticks <= 120,
            d@ == sim_after(seed, chaos, (tick - 1) as nat),
            run_bounds(d@, tick as int),
        decreases ticks + 1 - tick,
    {
        tick_run(&mut d, tick, chaos, Ghost(seed));
        tick = tick + 1;
    }
    outcome(d, &request.selected, seed, chaos, ticks)
}

fn build_proof(
    d: &DuelRun,
    selected: &String,
    should: &StrSet,
    naive_stats: &SideStats,
    trellis_stats: &SideStats,
    seed: u64,
    chaos: u8,
    ticks: u32,
) -> (r: DuelProof)
    requires
        should@ == desired_spec(d@.inputs),
    ensures
        r.deep_view() == proof_spec(seed, chaos, ticks, selected@, d@, naive_stats.deep_view(), trellis_stats.deep_view()),
{
    let mut replay = owned("seed=");
    push_dec(&mut replay, seed);
    append(&mut replay, " chaos=");
    push_dec(&mut replay, chaos as u64);
    append(&mut replay, " ticks=");
    push_dec(&mut replay, ticks as u64);
    append(&mut replay, " selected=");
    append(&mut replay, selected.as_str());
    let selected_command = match d.trellis.last_action.get(selected.as_str()) {
        Some(c) => Some(c.dup()),
        None => None,
    };
    let invariants = duel_invariants(naive_stats, trellis_stats);
    let desired_diff = diff(&d.last_before, should);
    let r = DuelProof {
        wasm_bundle: owned("demos/leak-duel/engine/trellis_observatory_engine_bg.wasm"),
        rust_source: owned("crates/trellis-observatory-engine/src/leak_duel.rs"),
        ui_source: owned("demos/leak-duel/leak-duel.js"),
        input_node: owned("chatInputs"),
        collection: owned("desiredAttachments"),
        scope: owned("chat-session"),
        transaction_id: d.trellis.transaction_id,
        revision: d.trellis.revision,
        deterministic_replay: replay,
        desired_diff,
        current_commands: d.trellis.last_commands.dup(),
        selected_command,
        invariants,
    };
    proof {
        assert(r.deep_view().deterministic_replay =~= proof_spec(seed, chaos, ticks, selected@, d@, naive_stats.deep_view(), trellis_stats.deep_view()).deterministic_replay);
    }
    r
}

fn side_stats(d: &DuelRun, should: &StrSet, Ghost(ticks): Ghost<int>) -> (r: (SideStats, SideStats))
    requires
        0 <= ticks <= 120,
        run_bounds(d@, ticks + 1),
        should@ == desired_spec(d@.inputs),
        should@.len() <= 16,
        d@.trellis == counted_spec(should@),
    ensures
        r.0.deep_view() == map_stats(d@.naive, should@, "drift"@),
        r.1.deep_view() == map_stats(d@.trellis, should@, "reconciled"@),
        r.1.open == r.1.should_open,
        r.1.delta == 0,
        r.1.orphaned == 0,
        r.1.duplicate_handles == 0,
        r.1.verdict@ == "reconciled"@,
{
    should.lemma_elems();
    d.naive_open.lemma_keys();
    d.trellis_open.lemma_keys();
    proof {
        assert forall|i: int| 0 <= i < d.naive_open.vals().len() implies d.naive_open.vals()[i] <= 2 * ticks + 1 by {
            assert(d.naive_open@[d.naive_open.keys()[i]] == d.naive_open.vals()[i]);
            assert(d.naive_open.keys().to_set().contains(d.naive_open.keys()[i]));
        }
        lemma_total_bound(d.naive_open.vals(), 2 * ticks + 1);
        let n = d.naive_open.vals().len() as int;
        let c = 2 * ticks + 1;
        assert(n * c <= 1936 * 241) by (nonlinear_arith)
            requires
                0 <= n <= 1936,
                0 <= c <= 241,
        ;
        assert forall|i: int| 0 <= i < d.trellis_open.vals().len() implies d.trellis_open.vals()[i] <= 1 by {
            assert(d.trellis_open@[d.trellis_open.keys()[i]] == d.trellis_open.vals()[i]);
            assert(d.trellis_open.keys().to_set().contains(d.trellis_open.keys()[i]));
        }
        lemma_total_bound(d.trellis_open.vals(), 1);
        assert(d.trellis_open@.dom() =~= should@);
        law_counted_ledger_is_reconciled(should@, "reconciled"@);
    }
    let naive_stats = stats(&d.naive_open, should, "drift");
    let trellis_stats = stats(&d.trellis_open, should, "reconciled");
    (naive_stats, trellis_stats)
}

#[verifier::spinoff_prover]
#[verifier::rlimit(40)]
fn outcome(d: DuelRun, requested: &Option<String>, seed: u64, chaos: u8, ticks: u32) -> (r: LeakDuelState)
    requires
        ticks <= 120,
        d@ == sim_after(seed, chaos, ticks as nat),
        run_bounds(d@, ticks + 1),
    ensures
        r.deep_view() == outcome_spec(seed, chaos, ticks, requested.deep_view()),
        r.trellis.open == r.trellis.should_open,
        r.trellis.delta == 0,
        r.trellis.orphaned == 0,
        r.trellis.duplicate_handles == 0,
        r.trellis.verdict@ == "reconciled"@,
{
    let ghost s = d@;
    proof {
        law_trellis_side_stays_reconciled(seed, chaos, ticks as nat);
    }
    let should = desired_attachments(&d.inputs);
    should.lemma_elems();
    proof {
        lemma_ordered(should.elems());
        lemma_inputs_ok_bounds(d.inputs.deep_view());
    }
    let (naive_stats, trellis_stats) = side_stats(&d, &should, Ghost(ticks as int));
    let selected = select(requested, &should, &d.naive_open);
    let receipt_causes = causes_of(&d.trellis.last_action);
    let proof_record = build_proof(&d, &selected, &should, &naive_stats, &trellis_stats, seed, chaos, ticks);
    let should_open = should.to_vec();
    assert(should_open.deep_view() =~= views(should_open@));
    let table = rows(&should, &d.naive_open, &d.trellis_open);
    let receipt = receipt_for(selected.as_str(), &d.inputs, &should, &receipt_causes);
    let inputs = d.inputs.dup();
    let r = LeakDuelState {
        seed,
        chaos,
        tick: ticks,
        inputs,
        should_open,
        rows: table,
        naive: naive_stats,
        trellis: trellis_stats,
        activity: d.activity,
        selected_receipt: receipt,
        proof: proof_record,
    };
    assert(r.deep_view() == outcome_spec(seed, chaos, ticks, requested.deep_view()));
    r
}

} // verus!
