//! The chat-session simulation: seeded chaos events, the inputs they
//! change, the attachments the inputs demand, and the callback handlers
//! that try to follow along.
use vstd::prelude::*;
use crate::duel::types::{ChatInputs, ChatInputsView};
use crate::dup::Dup;
use crate::strmap::{least, lemma_least, lemma_ordered, ordered, sorted, views, StrMap, StrSet};
use crate::text::{append, chars_of, join, join_strings, lemma_lt_total, lemma_lt_transitive, owned, replace_all, replace_str, seq_lt, starts_with, str_eq, str_starts_with, string_of_range};

verus! {

// ---------------------------------------------------------------------
// Random numbers
// ---------------------------------------------------------------------
/// One step of the generator: a 64-bit linear congruential step.
pub open spec fn lcg(x: u64) -> u64 {
    vstd::wrapping::u64_specs::wrapping_add(
        vstd::wrapping::u64_specs::wrapping_mul(x, 6364136223846793005u64),
        1442695040888963407u64,
    )
}

/// A seeded pseudo-random generator.
pub struct Rng {
    state: u64,
}

impl View for Rng {
    type V = u64;

    closed spec fn view(&self) -> u64 {
        self.state
    }
}

impl Rng {
    /// A generator in the given state.
    pub fn new(seed: u64) -> (r: Self)
        ensures
            r@ == seed,
    {
        Rng { state: seed }
    }

    /// Advances the generator and returns its new state.
    pub fn next(&mut self) -> (r: u64)
        ensures
            final(self)@ == lcg(old(self)@),
            r == final(self)@,
    {
        self.state = self.state.wrapping_mul(6364136223846793005u64).wrapping_add(1442695040888963407u64);
        self.state
    }
}

// ---------------------------------------------------------------------
// Inputs and desired attachments
// ---------------------------------------------------------------------
/// The rooms events pick from.
pub open spec fn room_names() -> Seq<Seq<char>> {
    seq!["ops"@, "design"@, "infra"@, "billing"@]
}

/// The users events pick from.
pub open spec fn user_names() -> Seq<Seq<char>> {
    seq!["ava"@, "bo"@, "cy"@, "dee"@]
}

/// The session the duel starts from.
pub open spec fn initial_inputs_spec() -> ChatInputsView {
    ChatInputsView {
        workspace: "atlas"@,
        joined_rooms: set!["ops"@, "design"@],
        permission_grants: set!["ops"@, "design"@],
        follows: set!["ava"@, "bo"@],
        network_online: true,
    }
}

/// The session the duel starts from.
pub fn initial_inputs() -> (r: ChatInputs)
    ensures
        r.deep_view() == initial_inputs_spec(),
{
    let mut rooms = StrSet::new();
    rooms.insert(owned("ops"));
    rooms.insert(owned("design"));
    let mut grants = StrSet::new();
    grants.insert(owned("ops"));
    grants.insert(owned("design"));
    let mut follows = StrSet::new();
    follows.insert(owned("ava"));
    follows.insert(owned("bo"));
    let r = ChatInputs {
        workspace: owned("atlas"),
        joined_rooms: rooms,
        permission_grants: grants,
        follows,
        network_online: true,
    };
    assert(r.deep_view().joined_rooms =~= set!["ops"@, "design"@]);
    assert(r.deep_view().permission_grants =~= set!["ops"@, "design"@]);
    assert(r.deep_view().follows =~= set!["ava"@, "bo"@]);
    r
}

/// The key of a user's attachment stream in a room of a workspace.
pub open spec fn attachment_key(ws: Seq<char>, room: Seq<char>, user: Seq<char>) -> Seq<char> {
    "attachment:"@ + ws + ":"@ + room + ":"@ + user
}

/// Whether the inputs demand an attachment: online, for a joined room the
/// user may read, and a followed user.
pub open spec fn demands(i: ChatInputsView, k: Seq<char>) -> bool {
    i.network_online && exists|room: Seq<char>, user: Seq<char>|
        #![trigger attachment_key(i.workspace, room, user)]
        i.joined_rooms.contains(room) && i.permission_grants.contains(room) && i.follows.contains(user)
            && k == attachment_key(i.workspace, room, user)
}

/// The attachments the inputs demand.
pub open spec fn desired_spec(i: ChatInputsView) -> Set<Seq<char>> {
    Set::new(|k: Seq<char>| demands(i, k))
}

/// The attachments of the first `n` of the users in a room.
pub open spec fn room_keys(ws: Seq<char>, room: Seq<char>, users: Seq<Seq<char>>, n: int) -> Set<Seq<char>> {
    Set::new(|k: Seq<char>| exists|b: int| 0 <= b < n && k == #[trigger] attachment_key(ws, room, users[b]))
}

fn attachment_of(ws: &str, room: &str, user: &str) -> (r: String)
    ensures
        r@ == attachment_key(ws@, room@, user@),
{
    let mut r = owned("attachment:");
    append(&mut r, ws);
    append(&mut r, ":");
    append(&mut r, room);
    append(&mut r, ":");
    append(&mut r, user);
    r
}

/// The attachments the inputs demand.
pub fn desired_attachments(inputs: &ChatInputs) -> (r: StrSet)
    ensures
        r@ == desired_spec(inputs.deep_view()),
        r@.len() <= inputs.joined_rooms@.len() * inputs.follows@.len(),
{
    let ghost iv = inputs.deep_view();
    inputs.joined_rooms.lemma_elems();
    inputs.follows.lemma_elems();
    let mut out = StrSet::new();
    if !inputs.network_online {
        assert(out@ =~= desired_spec(iv));
        return out;
    }
    let nr = inputs.joined_rooms.len();
    let nf = inputs.follows.len();
    let mut i: usize = 0;
    while i < nr
        invariant
            iv == inputs.deep_view(),
            iv.network_online,
            nr == inputs.joined_rooms.elems().len(),
            nf == inputs.follows.elems().len(),
            inputs.joined_rooms.elems().to_set() == iv.joined_rooms,
            inputs.follows.elems().to_set() == iv.follows,
            i <= nr,
            out@.finite(),
            out@.len() <= i * nf,
            forall|k: Seq<char>|
                out@.contains(k) <==> exists|a: int, b: int|
                    0 <= a < i && 0 <= b < nf && iv.permission_grants.contains(
                        inputs.joined_rooms.elems()[a],
                    ) && k == #[trigger] attachment_key(
                        iv.workspace,
                        inputs.joined_rooms.elems()[a],
                        inputs.follows.elems()[b],
                    ),
        decreases nr - i,
    {
        let room = inputs.joined_rooms.elem_at(i);
        let granted = inputs.permission_grants.contains(room.as_str());
        let mut j: usize = 0;
        let ghost before = out@;
        let ghost users = inputs.follows.elems();
        while j < nf
            invariant
                iv == inputs.deep_view(),
                nr == inputs.joined_rooms.elems().len(),
                nf == inputs.follows.elems().len(),
                users == inputs.follows.elems(),
                i < nr,
                room@ == inputs.joined_rooms.elems()[i as int],
                granted == iv.permission_grants.contains(room@),
                j <= nf,
                before.finite(),
                out@.finite(),
                out@.len() <= before.len() + j,
                out@ == if granted {
                    before.union(room_keys(iv.workspace, room@, users, j as int))
                } else {
                    before
                },
            decreases nf - j,
        {
            if granted {
                let user = inputs.follows.elem_at(j);
                let key = attachment_of(inputs.workspace.as_str(), room.as_str(), user.as_str());
                let ghost prev = out@;
                out.insert(key);
                proof {
                    assert(out@.len() <= prev.len() + 1);
                    let kj = attachment_key(iv.workspace, room@, users[j as int]);
                    assert(key@ == kj);
                    assert(room_keys(iv.workspace, room@, users, j + 1) =~= room_keys(
                        iv.workspace,
                        room@,
                        users,
                        j as int,
                    ).insert(kj));
                    assert(out@ =~= before.union(room_keys(iv.workspace, room@, users, j + 1)));
                }
            }
            j = j + 1;
        }
        proof {
            assert forall|k: Seq<char>| #[trigger] out@.contains(k) <==> (before.contains(k) || (granted
                && exists|b: int| 0 <= b < nf && k == #[trigger] attachment_key(iv.workspace, room@, users[b]))) by {
                if granted {
                    assert(room_keys(iv.workspace, room@, users, nf as int).contains(k) == exists|b: int|
                        0 <= b < nf && k == #[trigger] attachment_key(iv.workspace, room@, users[b]));
                }
            }
        }
        proof {
            assert(out@.len() <= (i + 1) * nf) by (nonlinear_arith)
                requires
                    out@.len() <= before.len() + nf,
                    before.len() <= i * nf,
            ;
            assert forall|k: Seq<char>|
                out@.contains(k) <==> exists|a: int, b: int|
                    0 <= a < i + 1 && 0 <= b < nf && iv.permission_grants.contains(
                        inputs.joined_rooms.elems()[a],
                    ) && k == #[trigger] attachment_key(
                        iv.workspace,
                        inputs.joined_rooms.elems()[a],
                        inputs.follows.elems()[b],
                    ) by {
                if out@.contains(k) && !before.contains(k) {
                    let b = choose|b: int|
                        0 <= b < nf && k == #[trigger] attachment_key(
                            iv.workspace,
                            room@,
                            inputs.follows.elems()[b],
                        );
                    assert(iv.permission_grants.contains(inputs.joined_rooms.elems()[i as int]));
                    assert(k == attachment_key(
                        iv.workspace,
                        inputs.joined_rooms.elems()[i as int],
                        inputs.follows.elems()[b],
                    ));
                }
                if before.contains(k) {
                    let (a, b) = choose|a: int, b: int|
                        0 <= a < i && 0 <= b < nf && iv.permission_grants.contains(
                            inputs.joined_rooms.elems()[a],
                        ) && k == #[trigger] attachment_key(
                            iv.workspace,
                            inputs.joined_rooms.elems()[a],
                            inputs.follows.elems()[b],
                        );
                    assert(0 <= a < i + 1);
                }
                if exists|a: int, b: int|
                    0 <= a < i + 1 && 0 <= b < nf && iv.permission_grants.contains(
                        inputs.joined_rooms.elems()[a],
                    ) && k == #[trigger] attachment_key(
                        iv.workspace,
                        inputs.joined_rooms.elems()[a],
                        inputs.follows.elems()[b],
                    ) {
                    let (a, b) = choose|a: int, b: int|
                        0 <= a < i + 1 && 0 <= b < nf && iv.permission_grants.contains(
                            inputs.joined_rooms.elems()[a],
                        ) && k == #[trigger] attachment_key(
                            iv.workspace,
                            inputs.joined_rooms.elems()[a],
                            inputs.follows.elems()[b],
                        );
                    if a == i {
                        assert(k == attachment_key(iv.workspace, room@, inputs.follows.elems()[b]));
                        assert(granted);
                    } else {
                        assert(before.contains(k));
                    }
                }
            }
        }
        i = i + 1;
    }
    proof {
        assert forall|k: Seq<char>| out@.contains(k) <==> demands(iv, k) by {
            if out@.contains(k) {
                let (a, b) = choose|a: int, b: int|
                    0 <= a < nr && 0 <= b < nf && iv.permission_grants.contains(
                        inputs.joined_rooms.elems()[a],
                    ) && k == #[trigger] attachment_key(
                        iv.workspace,
                        inputs.joined_rooms.elems()[a],
                        inputs.follows.elems()[b],
                    );
                let room = inputs.joined_rooms.elems()[a];
                let user = inputs.follows.elems()[b];
                assert(inputs.joined_rooms.elems().to_set().contains(room));
                assert(inputs.follows.elems().to_set().contains(user));
                assert(k == attachment_key(iv.workspace, room, user));
            }
            if demands(iv, k) {
                let (room, user) = choose|room: Seq<char>, user: Seq<char>|
                    #![trigger attachment_key(iv.workspace, room, user)]
                    iv.joined_rooms.contains(room) && iv.permission_grants.contains(room)
                        && iv.follows.contains(user) && k == attachment_key(iv.workspace, room, user);
                assert(inputs.joined_rooms.elems().to_set().contains(room));
                assert(inputs.follows.elems().to_set().contains(user));
                let a = inputs.joined_rooms.elems().index_of(room);
                let b = inputs.follows.elems().index_of(user);
                assert(inputs.joined_rooms.elems()[a] == room);
                assert(inputs.follows.elems()[b] == user);
            }
        }
        assert(out@ =~= desired_spec(iv));
    }
    out
}

// ---------------------------------------------------------------------
// Chaos events
// ---------------------------------------------------------------------
/// What a tick does to the session.
#[derive(Clone, Copy, Debug, PartialEq, Eq, Structural)]
pub enum EventKind {
    /// A room is joined.
    JoinRoom,
    /// A room is left.
    LeaveRoom,
    /// Permission for a room is granted.
    GrantRoom,
    /// Permission for a room is revoked.
    RevokeRoom,
    /// The workspace changes.
    SwitchWorkspace,
    /// The network goes down.
    Offline,
    /// The network comes back.
    Reconnect,
    /// A user is followed or unfollowed.
    ToggleFollow,
}

/// One tick's event.
#[derive(Debug)]
pub struct ChaosEvent {
    /// What the event does.
    pub kind: EventKind,
    /// Short label.
    pub label: String,
    /// What happened, in words.
    pub detail: String,
    /// The room or user the event names; empty for the others.
    pub subject: String,
    /// Whether the event arrives among racing callbacks.
    pub noisy: bool,
}

/// What a `ChaosEvent` holds, as mathematical values.
pub struct ChaosEventView {
    /// What the event does.
    pub kind: EventKind,
    /// Short label.
    pub label: Seq<char>,
    /// What happened, in words.
    pub detail: Seq<char>,
    /// The room or user the event names.
    pub subject: Seq<char>,
    /// Whether the event arrives among racing callbacks.
    pub noisy: bool,
}

impl View for ChaosEvent {
    type V = ChaosEventView;

    open spec fn view(&self) -> ChaosEventView {
        ChaosEventView {
            kind: self.kind,
            label: self.label@,
            detail: self.detail@,
            subject: self.subject@,
            noisy: self.noisy,
        }
    }
}

/// An event value.
pub open spec fn ev(kind: EventKind, label: Seq<char>, detail: Seq<char>, subject: Seq<char>, noisy: bool) -> ChaosEventView {
    ChaosEventView { kind, label, detail, subject, noisy }
}

/// The name at the position the generator state selects.
pub open spec fn pick_spec(r: u64, names: Seq<Seq<char>>) -> Seq<char> {
    names[(r % 4) as int]
}

/// An existing element of `s` (its least), or, for an empty set, a room
/// the next generator state picks; with the generator state after.
pub open spec fn existing_spec(s: Set<Seq<char>>, state: u64) -> (Seq<char>, u64) {
    if s.is_empty() {
        (pick_spec(lcg(state), room_names()), lcg(state))
    } else {
        (least(s), state)
    }
}

/// The event of a tick, and the generator state after it.
pub open spec fn event_spec(state: u64, tick: u32, chaos: u8, i: ChatInputsView) -> (ChaosEventView, u64) {
    let r1 = lcg(state);
    let r2 = lcg(r1);
    let roll = (r1 as int + tick as int + chaos as int) % 8;
    let noisy = r2 % 3 == 0 || chaos > 7;
    if roll == 0 {
        let room = pick_spec(lcg(r2), room_names());
        (ev(EventKind::JoinRoom, "Join room"@, "joined "@ + room, room, noisy), lcg(r2))
    } else if roll == 1 {
        let (room, st) = existing_spec(i.joined_rooms, r2);
        (ev(EventKind::LeaveRoom, "Leave room"@, "left "@ + room, room, noisy), st)
    } else if roll == 2 {
        let room = pick_spec(lcg(r2), room_names());
        (ev(EventKind::GrantRoom, "Grant permission"@, "granted "@ + room, room, noisy), lcg(r2))
    } else if roll == 3 {
        let (room, st) = existing_spec(i.permission_grants, r2);
        (ev(EventKind::RevokeRoom, "Revoke permission"@, "revoked "@ + room, room, noisy), st)
    } else if roll == 4 {
        (ev(EventKind::SwitchWorkspace, "Switch workspace"@, "workspace changed while opens were in flight"@, Seq::empty(), noisy), r2)
    } else if roll == 5 {
        (ev(EventKind::Offline, "Network offline"@, "socket dropped; all live attachment streams should close"@, Seq::empty(), noisy), r2)
    } else if roll == 6 {
        (ev(EventKind::Reconnect, "Network reconnect"@, "socket reconnect replayed open callbacks"@, Seq::empty(), true), r2)
    } else {
        let user = pick_spec(lcg(r2), user_names());
        (ev(EventKind::ToggleFollow, "Follow set changed"@, "toggled "@ + user, user, noisy), lcg(r2))
    }
}

fn pick_from(rng: &mut Rng, rooms: bool) -> (r: String)
    ensures
        final(rng)@ == lcg(old(rng)@),
        r@ == pick_spec(final(rng)@, if rooms { room_names() } else { user_names() }),
{
    let x = rng.next() % 4;
    if rooms {
        if x == 0 { owned("ops") } else if x == 1 { owned("design") } else if x == 2 { owned("infra") } else { owned("billing") }
    } else {
        if x == 0 { owned("ava") } else if x == 1 { owned("bo") } else if x == 2 { owned("cy") } else { owned("dee") }
    }
}

fn existing(rng: &mut Rng, s: &StrSet) -> (r: String)
    ensures
        (r@, final(rng)@) == existing_spec(s@, old(rng)@),
{
    s.lemma_elems();
    if s.is_empty() {
        pick_from(rng, true)
    } else {
        proof {
            if s.elems().len() == 0 {
                assert(s@ =~= Set::<Seq<char>>::empty());
            }
            lemma_least(s.elems());
        }
        s.elem_at(0).dup()
    }
}

fn event_of(kind: EventKind, label: &str, prefix: &str, subject: String, noisy: bool) -> (e: ChaosEvent)
    ensures
        e@ == ev(kind, label@, prefix@ + subject@, subject@, noisy),
{
    let mut detail = owned(prefix);
    append(&mut detail, subject.as_str());
    ChaosEvent { kind, label: owned(label), detail, subject, noisy }
}

fn plain_event(kind: EventKind, label: &str, detail: &str, noisy: bool) -> (e: ChaosEvent)
    ensures
        e@ == ev(kind, label@, detail@, Seq::empty(), noisy),
{
    ChaosEvent { kind, label: owned(label), detail: owned(detail), subject: String::new(), noisy }
}

/// Draws the event of a tick.
pub fn next_event(rng: &mut Rng, tick: u32, chaos: u8, inputs: &ChatInputs) -> (e: ChaosEvent)
    ensures
        (e@, final(rng)@) == event_spec(old(rng)@, tick, chaos, inputs.deep_view()),
{
    let r1 = rng.next();
    let roll = (r1 % 8 + (tick as u64) % 8 + (chaos as u64) % 8) % 8;
    assert(roll == (r1 as int + tick as int + chaos as int) % 8) by (nonlinear_arith)
        requires
            roll == (r1 % 8 + (tick as u64) % 8 + (chaos as u64) % 8) % 8,
    ;
    let r2 = rng.next();
    let noisy = r2 % 3 == 0 || chaos > 7;
    if roll == 0 {
        let room = pick_from(rng, true);
        event_of(EventKind::JoinRoom, "Join room", "joined ", room, noisy)
    } else if roll == 1 {
        let room = existing(rng, &inputs.joined_rooms);
        event_of(EventKind::LeaveRoom, "Leave room", "left ", room, noisy)
    } else if roll == 2 {
        let room = pick_from(rng, true);
        event_of(EventKind::GrantRoom, "Grant permission", "granted ", room, noisy)
    } else if roll == 3 {
        let room = existing(rng, &inputs.permission_grants);
        event_of(EventKind::RevokeRoom, "Revoke permission", "revoked ", room, noisy)
    } else if roll == 4 {
        plain_event(EventKind::SwitchWorkspace, "Switch workspace", "workspace changed while opens were in flight", noisy)
    } else if roll == 5 {
        plain_event(EventKind::Offline, "Network offline", "socket dropped; all live attachment streams should close", noisy)
    } else if roll == 6 {
        plain_event(EventKind::Reconnect, "Network reconnect", "socket reconnect replayed open callbacks", true)
    } else {
        let user = pick_from(rng, false);
        event_of(EventKind::ToggleFollow, "Follow set changed", "toggled ", user, noisy)
    }
}

/// The inputs after an event.
pub open spec fn apply_event_spec(i: ChatInputsView, e: ChaosEventView) -> ChatInputsView {
    match e.kind {
        EventKind::JoinRoom => ChatInputsView { joined_rooms: i.joined_rooms.insert(e.subject), ..i },
        EventKind::LeaveRoom => ChatInputsView { joined_rooms: i.joined_rooms.remove(e.subject), ..i },
        EventKind::GrantRoom => ChatInputsView { permission_grants: i.permission_grants.insert(e.subject), ..i },
        EventKind::RevokeRoom => ChatInputsView { permission_grants: i.permission_grants.remove(e.subject), ..i },
        EventKind::SwitchWorkspace => ChatInputsView {
            workspace: if i.workspace == "atlas"@ { "beacon"@ } else { "atlas"@ },
            ..i
        },
        EventKind::Offline => ChatInputsView { network_online: false, ..i },
        EventKind::Reconnect => ChatInputsView { network_online: true, ..i },
        EventKind::ToggleFollow => ChatInputsView {
            follows: if i.follows.contains(e.subject) {
                i.follows.remove(e.subject)
            } else {
                i.follows.insert(e.subject)
            },
            ..i
        },
    }
}

/// Applies an event to the inputs.
pub fn apply_event(inputs: &mut ChatInputs, event: &ChaosEvent)
    ensures
        final(inputs).deep_view() == apply_event_spec(old(inputs).deep_view(), event@),
{
    let subject = event.subject.dup();
    match event.kind {
        EventKind::JoinRoom => {
            inputs.joined_rooms.insert(subject);
        },
        EventKind::LeaveRoom => {
            inputs.joined_rooms.remove(subject.as_str());
        },
        EventKind::GrantRoom => {
            inputs.permission_grants.insert(subject);
        },
        EventKind::RevokeRoom => {
            inputs.permission_grants.remove(subject.as_str());
        },
        EventKind::SwitchWorkspace => {
            let next = if str_eq(inputs.workspace.as_str(), "atlas") {
                owned("beacon")
            } else {
                owned("atlas")
            };
            inputs.workspace = next;
        },
        EventKind::Offline => {
            inputs.network_online = false;
        },
        EventKind::Reconnect => {
            inputs.network_online = true;
        },
        EventKind::ToggleFollow => {
            if !inputs.follows.remove(subject.as_str()) {
                inputs.follows.insert(subject);
            }
        },
    }
    assert(inputs.deep_view().joined_rooms == apply_event_spec(old(inputs).deep_view(), event@).joined_rooms);
    assert(inputs.deep_view().permission_grants == apply_event_spec(old(inputs).deep_view(), event@).permission_grants);
    assert(inputs.deep_view().follows == apply_event_spec(old(inputs).deep_view(), event@).follows);
    assert(inputs.deep_view().workspace == apply_event_spec(old(inputs).deep_view(), event@).workspace);
}

// ---------------------------------------------------------------------
// Callback handlers
// ---------------------------------------------------------------------
/// The handles open for a key (zero when absent).
pub open spec fn count_in(m: Map<Seq<char>, u32>, k: Seq<char>) -> int {
    if m.contains_key(k) {
        m[k] as int
    } else {
        0
    }
}

/// One more handle for each of `keys`.
pub open spec fn bump(m: Map<Seq<char>, u32>, keys: Set<Seq<char>>) -> Map<Seq<char>, u32> {
    Map::new(
        |k: Seq<char>| m.contains_key(k) || keys.contains(k),
        |k: Seq<char>| (count_in(m, k) + if keys.contains(k) { 1int } else { 0int }) as u32,
    )
}

/// One handle fewer for each of `keys`; a key whose count reaches zero
/// leaves the map.
pub open spec fn close_keys(m: Map<Seq<char>, u32>, keys: Set<Seq<char>>) -> Map<Seq<char>, u32> {
    Map::new(
        |k: Seq<char>| m.contains_key(k) && !(keys.contains(k) && m[k] <= 1),
        |k: Seq<char>| if keys.contains(k) { (m[k] - 1) as u32 } else { m[k] },
    )
}

/// The handlers skip closes: a noisy event that should close streams,
/// under chaos of at least four.
pub open spec fn skips_close(e: ChaosEventView, chaos: u8) -> bool {
    chaos >= 4 && e.noisy && (e.kind == EventKind::LeaveRoom || e.kind == EventKind::RevokeRoom
        || e.kind == EventKind::SwitchWorkspace || e.kind == EventKind::Offline)
}

/// The reconnect handler replays opens: a reconnect under chaos of at
/// least six.
pub open spec fn replays_open(e: ChaosEventView, chaos: u8) -> bool {
    chaos >= 6 && e.kind == EventKind::Reconnect
}

/// How many desired keys a replayed reconnect opens twice.
pub open spec fn replay_count(chaos: u8) -> int {
    if chaos / 4 >= 1 {
        (chaos / 4) as int
    } else {
        1
    }
}

/// The keys a replayed reconnect opens again: the first few desired keys.
pub open spec fn replayed(after: Set<Seq<char>>, chaos: u8) -> Seq<Seq<char>> {
    let q = ordered(after);
    q.take(if replay_count(chaos) <= q.len() { replay_count(chaos) } else { q.len() as int })
}

/// The handle counts after the handlers ran for an event.
pub open spec fn naive_counts(
    m: Map<Seq<char>, u32>,
    before: Set<Seq<char>>,
    after: Set<Seq<char>>,
    e: ChaosEventView,
    chaos: u8,
) -> Map<Seq<char>, u32> {
    let opened = bump(m, after.difference(before));
    let closed = if skips_close(e, chaos) {
        opened
    } else {
        close_keys(opened, before.difference(after))
    };
    if replays_open(e, chaos) {
        bump(closed, replayed(after, chaos).to_set())
    } else {
        closed
    }
}

/// The note for a close the handlers missed.
pub open spec fn missed_note(k: Seq<char>) -> Seq<char> {
    "missed close for "@ + short_key_spec(k)
}

/// The note for a stream opened twice.
pub open spec fn double_note(k: Seq<char>) -> Seq<char> {
    "double-opened "@ + short_key_spec(k)
}

/// Missed-close notes for the keys.
pub open spec fn missed_notes(ks: Seq<Seq<char>>) -> Seq<Seq<char>> {
    Seq::new(ks.len(), |i: int| missed_note(ks[i]))
}

/// Double-open notes for the keys.
pub open spec fn double_notes(ks: Seq<Seq<char>>) -> Seq<Seq<char>> {
    Seq::new(ks.len(), |i: int| double_note(ks[i]))
}

/// The notes of the handlers for an event, in order.
pub open spec fn naive_notes(before: Set<Seq<char>>, after: Set<Seq<char>>, e: ChaosEventView, chaos: u8) -> Seq<Seq<char>> {
    (if skips_close(e, chaos) {
        missed_notes(ordered(before.difference(after)))
    } else {
        Seq::empty()
    }) + (if replays_open(e, chaos) {
        double_notes(replayed(after, chaos))
    } else {
        Seq::empty()
    })
}

/// What the handlers report for an event.
pub open spec fn naive_note(before: Set<Seq<char>>, after: Set<Seq<char>>, e: ChaosEventView, chaos: u8) -> Seq<char> {
    let notes = naive_notes(before, after, e, chaos);
    if notes.len() == 0 {
        "handlers happened to balance for this event"@
    } else {
        join(notes, "; "@)
    }
}

/// The label of an attachment key: without its `attachment:` prefix, with
/// each colon shown as ` / `.
pub open spec fn short_key_spec(k: Seq<char>) -> Seq<char> {
    let rest = if starts_with(k, "attachment:"@) {
        k.skip("attachment:"@.len() as int)
    } else {
        k
    };
    replace_all(rest, ":"@, " / "@)
}

/// The label of an attachment key.
pub fn short_key(key: &str) -> (r: String)
    ensures
        r@ == short_key_spec(key@),
{
    let rest = if str_starts_with(key, "attachment:") {
        let cs = chars_of(key);
        proof {
            reveal_strlit("attachment:");
        }
        string_of_range(cs.as_slice(), 11, cs.len())
    } else {
        owned(key)
    };
    proof {
        reveal_strlit(":");
    }
    replace_str(rest.as_str(), ":", " / ")
}

proof fn lemma_bump_insert(m: Map<Seq<char>, u32>, t: Set<Seq<char>>, k: Seq<char>)
    requires
        !t.contains(k),
    ensures
        bump(m, t.insert(k)) == bump(m, t).insert(k, (count_in(m, k) + 1) as u32),
        count_in(bump(m, t), k) == count_in(m, k),
{
    assert(bump(m, t.insert(k)) =~= bump(m, t).insert(k, (count_in(m, k) + 1) as u32));
}

proof fn lemma_close_insert(m: Map<Seq<char>, u32>, t: Set<Seq<char>>, k: Seq<char>)
    requires
        !t.contains(k),
    ensures
        close_keys(m, t.insert(k)) == (if close_keys(m, t).contains_key(k) {
            if close_keys(m, t)[k] <= 1 {
                close_keys(m, t).remove(k)
            } else {
                close_keys(m, t).insert(k, (close_keys(m, t)[k] - 1) as u32)
            }
        } else {
            close_keys(m, t)
        }),
{
    let c = close_keys(m, t);
    if c.contains_key(k) {
        if c[k] <= 1 {
            assert(close_keys(m, t.insert(k)) =~= c.remove(k));
        } else {
            assert(close_keys(m, t.insert(k)) =~= c.insert(k, (c[k] - 1) as u32));
        }
    } else {
        assert(close_keys(m, t.insert(k)) =~= c);
    }
}

/// One more handle for `k`.
fn bump_one(open: &mut StrMap<u32>, k: &String)
    requires
        count_in(old(open)@, k@) < u32::MAX,
    ensures
        final(open)@ == old(open)@.insert(k@, (count_in(old(open)@, k@) + 1) as u32),
{
    let c: u32 = match open.get(k.as_str()) {
        Some(v) => *v,
        None => 0,
    };
    open.insert(k.dup(), c + 1);
}

/// One handle fewer for `k`; the key leaves when none is left.
fn close_one(open: &mut StrMap<u32>, k: &str)
    ensures
        final(open)@ == (if old(open)@.contains_key(k@) {
            if old(open)@[k@] <= 1 {
                old(open)@.remove(k@)
            } else {
                old(open)@.insert(k@, (old(open)@[k@] - 1) as u32)
            }
        } else {
            old(open)@
        }),
{
    let c: Option<u32> = match open.get(k) {
        Some(v) => Some(*v),
        None => None,
    };
    match c {
        Some(v) => {
            if v <= 1 {
                open.remove(k);
            } else {
                open.insert(owned(k), v - 1);
            }
        },
        None => {},
    }
}

fn note_for(prefix: &str, key: &str) -> (r: String)
    ensures
        r@ == prefix@ + short_key_spec(key@),
{
    let mut r = owned(prefix);
    let label = short_key(key);
    append(&mut r, label.as_str());
    r
}

/// Runs the callback handlers for an event, as a callback-driven client
/// would: it opens each newly desired key, closes each key no longer
/// desired unless a noisy event made it miss the close, and on a replayed
/// reconnect opens the first desired keys a second time. Returns what the
/// handlers did, in words.
pub fn apply_naive(open: &mut StrMap<u32>, before: &StrSet, after: &StrSet, event: &ChaosEvent, chaos: u8) -> (note: String)
    requires
        forall|k: Seq<char>| old(open)@.contains_key(k) ==> old(open)@[k] < u32::MAX - 1,
    ensures
        final(open)@ == naive_counts(old(open)@, before@, after@, event@, chaos),
        note@ == naive_note(before@, after@, event@, chaos),
{
    let ghost m0 = open@;
    let mut notes: Vec<String> = Vec::new();
    let added = after.difference(before);
    proof {
        crate::strmap::lemma_sorted_no_dup(views(added@));
    }
    let mut i: usize = 0;
    while i < added.len()
        invariant
            i <= added@.len(),
            views(added@).no_duplicates(),
            open@ == bump(m0, views(added@).take(i as int).to_set()),
            forall|k: Seq<char>| m0.contains_key(k) ==> m0[k] < u32::MAX - 1,
        decreases added.len() - i,
    {
        let ghost q = views(added@);
        let ghost k = q[i as int];
        proof {
            if q.take(i as int).contains(k) {
                let j = choose|j: int| 0 <= j < i && q.take(i as int)[j] == k;
                assert(q[j] == q[i as int]);
            }
            q.take(i as int).lemma_push_to_set_commute(k);
            assert(q.take(i + 1) =~= q.take(i as int).push(k));
            lemma_bump_insert(m0, q.take(i as int).to_set(), k);
        }
        bump_one(open, &added[i]);
        i = i + 1;
    }
    proof {
        assert(views(added@).take(added@.len() as int) =~= views(added@));
    }
    let ghost m1 = open@;
    assert(m1 == bump(m0, after@.difference(before@)));
    let skip = chaos >= 4 && event.noisy && (event.kind == EventKind::LeaveRoom || event.kind
        == EventKind::RevokeRoom || event.kind == EventKind::SwitchWorkspace || event.kind
        == EventKind::Offline);
    assert(skip == skips_close(event@, chaos));
    let gone = before.difference(after);
    proof {
        crate::strmap::lemma_sorted_no_dup(views(gone@));
    }
    let mut j: usize = 0;
    while j < gone.len()
        invariant
            j <= gone@.len(),
            skip == skips_close(event@, chaos),
            views(gone@).no_duplicates(),
            open@ == (if skip {
                m1
            } else {
                close_keys(m1, views(gone@).take(j as int).to_set())
            }),
            views(notes@) == (if skip {
                missed_notes(views(gone@).take(j as int))
            } else {
                Seq::empty()
            }),
        decreases gone.len() - j,
    {
        let ghost q = views(gone@);
        let ghost k = q[j as int];
        proof {
            if q.take(j as int).contains(k) {
                let x = choose|x: int| 0 <= x < j && q.take(j as int)[x] == k;
                assert(q[x] == q[j as int]);
            }
            q.take(j as int).lemma_push_to_set_commute(k);
            assert(q.take(j + 1) =~= q.take(j as int).push(k));
            lemma_close_insert(m1, q.take(j as int).to_set(), k);
            assert(missed_notes(q.take(j + 1)) =~= missed_notes(q.take(j as int)).push(missed_note(k)));
        }
        if skip {
            let ghost prev = notes@;
            notes.push(note_for("missed close for ", gone[j].as_str()));
            assert(views(notes@) =~= views(prev).push(missed_note(k)));
        } else {
            close_one(open, gone[j].as_str());
        }
        j = j + 1;
    }
    proof {
        assert(views(gone@).take(gone@.len() as int) =~= views(gone@));
        lemma_ordered(views(gone@));
    }
    let ghost m2 = open@;
    let ghost pre = views(notes@);
    assert(m2 == (if skip { m1 } else { close_keys(m1, before@.difference(after@)) }));
    assert(pre == (if skips_close(event@, chaos) {
        missed_notes(ordered(before@.difference(after@)))
    } else {
        Seq::<Seq<char>>::empty()
    }));
    assert forall|k: Seq<char>| m2.contains_key(k) implies m2[k] < u32::MAX by {
        assert(m1.contains_key(k));
    }
    if chaos >= 6 && event.kind == EventKind::Reconnect {
        after.lemma_elems();
        proof {
            lemma_ordered(after.elems());
        }
        let quarter = chaos / 4;
        let wanted: usize = if quarter >= 1 { quarter as usize } else { 1 };
        let lim: usize = if wanted <= after.len() { wanted } else { after.len() };
        let ghost es = after.elems();
        assert(replayed(after@, chaos) == es.take(lim as int));
        let mut x: usize = 0;
        while x < lim
            invariant
                x <= lim <= es.len(),
                es == after.elems(),
                es.no_duplicates(),
                open@ == bump(m2, es.take(x as int).to_set()),
                forall|k: Seq<char>| m2.contains_key(k) ==> m2[k] < u32::MAX,
                views(notes@) == pre + double_notes(es.take(x as int)),
            decreases lim - x,
        {
            let ghost k = es[x as int];
            proof {
                if es.take(x as int).contains(k) {
                    let y = choose|y: int| 0 <= y < x && es.take(x as int)[y] == k;
                    assert(es[y] == es[x as int]);
                }
                es.take(x as int).lemma_push_to_set_commute(k);
                assert(es.take(x + 1) =~= es.take(x as int).push(k));
                lemma_bump_insert(m2, es.take(x as int).to_set(), k);
                assert(double_notes(es.take(x + 1)) =~= double_notes(es.take(x as int)).push(double_note(k)));
            }
            let key = after.elem_at(x);
            bump_one(open, key);
            let ghost prev = notes@;
            notes.push(note_for("double-opened ", key.as_str()));
            assert(views(notes@) =~= views(prev).push(double_note(k)));
            assert(pre + double_notes(es.take(x + 1)) =~= (pre + double_notes(es.take(x as int))).push(double_note(k)));
            x = x + 1;
        }
    } else {
        assert(pre + Seq::<Seq<char>>::empty() =~= pre);
    }
    assert(views(notes@) == naive_notes(before@, after@, event@, chaos));
    if notes.len() == 0 {
        owned("handlers happened to balance for this event")
    } else {
        join_strings(notes.as_slice(), "; ")
    }
}

/// Every key of the set with one handle.
pub open spec fn counted_spec(keys: Set<Seq<char>>) -> Map<Seq<char>, u32> {
    Map::new(|k: Seq<char>| keys.contains(k), |k: Seq<char>| 1u32)
}

/// Every key of the set with one handle.
pub fn counted(keys: &StrSet) -> (r: StrMap<u32>)
    ensures
        r@ == counted_spec(keys@),
{
    keys.lemma_elems();
    let mut r: StrMap<u32> = StrMap::new();
    let mut i: usize = 0;
    while i < keys.len()
        invariant
            i <= keys.elems().len(),
            keys.elems().to_set() == keys@,
            r@ == counted_spec(keys.elems().take(i as int).to_set()),
        decreases keys.elems().len() - i,
    {
        let ghost q = keys.elems();
        proof {
            q.take(i as int).lemma_push_to_set_commute(q[i as int]);
            assert(q.take(i + 1) =~= q.take(i as int).push(q[i as int]));
        }
        r.insert(keys.elem_at(i).dup(), 1);
        assert(r@ =~= counted_spec(q.take(i + 1).to_set()));
        i = i + 1;
    }
    assert(keys.elems().take(i as int) =~= keys.elems());
    r
}

// ---------------------------------------------------------------------
// Bounds the session keeps
// ---------------------------------------------------------------------
/// Joined rooms come from the room list and follows from the user list.
pub open spec fn inputs_ok(i: ChatInputsView) -> bool {
    i.joined_rooms.subset_of(room_names().to_set()) && i.follows.subset_of(user_names().to_set())
}

/// The session starts within the lists.
pub proof fn lemma_initial_inputs_ok()
    ensures
        inputs_ok(initial_inputs_spec()),
{
    let i = initial_inputs_spec();
    assert(room_names()[0] == "ops"@ && room_names()[1] == "design"@);
    assert(user_names()[0] == "ava"@ && user_names()[1] == "bo"@);
    assert(room_names().to_set().contains("ops"@));
    assert(room_names().to_set().contains("design"@));
    assert(user_names().to_set().contains("ava"@));
    assert(user_names().to_set().contains("bo"@));
}

/// A picked name is one of the list.
pub proof fn lemma_pick(r: u64, names: Seq<Seq<char>>)
    requires
        names.len() == 4,
    ensures
        names.to_set().contains(pick_spec(r, names)),
{
    assert(names.contains(names[(r % 4) as int]));
}

/// Events keep the session within the lists.
pub proof fn lemma_event_keeps_inputs_ok(state: u64, tick: u32, chaos: u8, i: ChatInputsView)
    requires
        inputs_ok(i),
    ensures
        inputs_ok(apply_event_spec(i, event_spec(state, tick, chaos, i).0)),
{
    let r2 = lcg(lcg(state));
    lemma_pick(lcg(r2), room_names());
    lemma_pick(lcg(r2), user_names());
}

/// Within the lists, the session demands at most sixteen attachments.
pub proof fn lemma_inputs_ok_bounds(i: ChatInputsView)
    requires
        inputs_ok(i),
    ensures
        i.joined_rooms.finite(),
        i.follows.finite(),
        i.joined_rooms.len() * i.follows.len() <= 16,
{
    room_names().lemma_cardinality_of_set();
    user_names().lemma_cardinality_of_set();
    vstd::seq_lib::seq_to_set_is_finite(room_names());
    vstd::seq_lib::seq_to_set_is_finite(user_names());
    vstd::set_lib::lemma_len_subset(i.joined_rooms, room_names().to_set());
    vstd::set_lib::lemma_len_subset(i.follows, user_names().to_set());
    let a = i.joined_rooms.len();
    let b = i.follows.len();
    assert(a * b <= 16) by (nonlinear_arith)
        requires
            a <= 4,
            b <= 4,
    ;
}

/// The handlers add at most two handles to a key, and only open keys that
/// are open already or desired after the event.
pub proof fn lemma_naive_counts_bound(
    m: Map<Seq<char>, u32>,
    before: Set<Seq<char>>,
    after: Set<Seq<char>>,
    e: ChaosEventView,
    chaos: u8,
    c: int,
)
    requires
        forall|k: Seq<char>| m.contains_key(k) ==> m[k] <= c,
        0 <= c,
        c + 2 <= u32::MAX,
        forall|k: Seq<char>| replayed(after, chaos).contains(k) ==> after.contains(k),
    ensures
        forall|k: Seq<char>| #[trigger] naive_counts(m, before, after, e, chaos).contains_key(k) ==> naive_counts(m, before, after, e, chaos)[k] <= c + 2,
        forall|k: Seq<char>| #[trigger] naive_counts(m, before, after, e, chaos).contains_key(k) ==> m.contains_key(k) || after.contains(k),
{
    let opened = bump(m, after.difference(before));
    assert forall|k: Seq<char>| opened.contains_key(k) implies opened[k] <= c + 1 && (m.contains_key(k) || after.contains(k)) by {
    }
    let closed = if skips_close(e, chaos) {
        opened
    } else {
        close_keys(opened, before.difference(after))
    };
    assert forall|k: Seq<char>| closed.contains_key(k) implies closed[k] <= c + 1 && (m.contains_key(k) || after.contains(k)) by {
        assert(opened.contains_key(k));
    }
    if replays_open(e, chaos) {
        let rs = replayed(after, chaos).to_set();
        assert forall|k: Seq<char>| #[trigger] bump(closed, rs).contains_key(k) implies bump(closed, rs)[k] <= c + 2 && (m.contains_key(k) || after.contains(k)) by {
            if rs.contains(k) {
                assert(replayed(after, chaos).contains(k));
            }
        }
    }
}

} // verus!
