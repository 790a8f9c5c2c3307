use trellis_observatory::duel::present::{receipt_for, stats};
use trellis_observatory::duel::run::{duel_invariants, run, TrellisSide};
use trellis_observatory::duel::sim::{
    apply_event, apply_naive, counted, desired_attachments, initial_inputs, next_event, short_key, ChaosEvent,
    EventKind, Rng,
};
use trellis_observatory::duel::types::LeakDuelRequest;
use trellis_observatory::strmap::{StrMap, StrSet};

fn request(seed: u64, chaos: u8, ticks: u32) -> LeakDuelRequest {
    LeakDuelRequest {
        seed: Some(seed),
        chaos: Some(chaos),
        ticks: Some(ticks),
        selected: None,
    }
}

#[test]
fn same_seed_produces_same_snapshot() {
    let left = format!("{:?}", run(request(1337, 8, 24)));
    let right = format!("{:?}", run(request(1337, 8, 24)));
    assert_eq!(left, right);
}

#[test]
fn trellis_side_stays_reconciled_under_high_chaos() {
    let state = run(LeakDuelRequest {
        seed: Some(42),
        chaos: Some(9),
        ticks: Some(32),
        selected: None,
    });
    assert_eq!(state.trellis.delta, 0);
    assert_eq!(state.trellis.orphaned, 0);
    assert_eq!(state.trellis.duplicate_handles, 0);
}

#[test]
fn naive_side_drifts_for_replayable_chaos() {
    let state = run(LeakDuelRequest {
        seed: Some(1337),
        chaos: Some(8),
        ticks: Some(24),
        selected: None,
    });
    assert!(
        state.naive.delta != 0 || state.naive.orphaned > 0 || state.naive.duplicate_handles > 0
    );
}

#[test]
fn trellis_side_is_reconciled_for_many_requests() {
    for seed in 0..20u64 {
        for chaos in [0u8, 4, 7, 10] {
            let state = run(request(seed, chaos, 40));
            assert_eq!(state.trellis.delta, 0);
            assert_eq!(state.trellis.orphaned, 0);
            assert_eq!(state.trellis.duplicate_handles, 0);
            assert_eq!(state.trellis.open, state.trellis.should_open);
            assert_eq!(state.trellis.verdict, "reconciled");
            assert_eq!(state.trellis.should_open as usize, state.should_open.len());
            for row in &state.rows {
                assert_eq!(row.trellis_open, if row.should_open { 1 } else { 0 });
            }
        }
    }
}

#[test]
fn defaults_and_limits_of_a_request() {
    let state = run(LeakDuelRequest {
        seed: None,
        chaos: None,
        ticks: None,
        selected: None,
    });
    assert_eq!(state.seed, 1337);
    assert_eq!(state.chaos, 7);
    assert_eq!(state.tick, 18);
    assert_eq!(state.activity.len(), 19);
    let capped = run(request(5, 200, 1000));
    assert_eq!(capped.chaos, 10);
    assert_eq!(capped.tick, 120);
    assert_eq!(capped.activity.len(), 121);
    assert_eq!(capped.proof.transaction_id, 121);
    assert_eq!(capped.proof.revision, 121);
}

#[test]
fn zero_ticks_keeps_the_initial_workspace() {
    let state = run(request(9, 3, 0));
    assert_eq!(
        state.should_open,
        vec![
            "attachment:atlas:design:ava".to_owned(),
            "attachment:atlas:design:bo".to_owned(),
            "attachment:atlas:ops:ava".to_owned(),
            "attachment:atlas:ops:bo".to_owned(),
        ]
    );
    assert_eq!(state.activity.len(), 1);
    assert_eq!(state.activity[0].label, "Open initial workspace");
    assert_eq!(state.naive.verdict, "drift");
    assert_eq!(state.naive.delta, 0);
    assert_eq!(state.proof.transaction_id, 1);
    assert_eq!(state.proof.desired_diff.added, state.should_open);
    assert!(state.proof.desired_diff.removed.is_empty());
    assert_eq!(state.proof.current_commands.len(), 4);
    assert_eq!(state.proof.current_commands[0].kind, "OPEN");
    assert_eq!(
        state.proof.current_commands[0].cause,
        "bootstrap -> desiredAttachments added this key -> [OPEN] attachment:atlas:design:ava"
    );
    assert_eq!(
        state.proof.deterministic_replay,
        "seed=9 chaos=3 ticks=0 selected=attachment:atlas:design:ava"
    );
    assert_eq!(state.selected_receipt.key, "attachment:atlas:design:ava");
    assert_eq!(state.selected_receipt.status, "owned");
    assert_eq!(state.selected_receipt.title, "why Trellis keeps this open");
    assert_eq!(
        state.selected_receipt.steps[0].detail,
        "workspace=atlas, rooms={\"design\", \"ops\"}, grants={\"design\", \"ops\"}, follows={\"ava\", \"bo\"}, online=true"
    );
    assert_eq!(
        state.selected_receipt.steps[1].detail,
        "desiredAttachments contains attachment:atlas:design:ava"
    );
    assert_eq!(
        state.selected_receipt.steps[2].detail,
        "bootstrap -> desiredAttachments added this key -> [OPEN] attachment:atlas:design:ava"
    );
    assert_eq!(state.proof.invariants.len(), 5);
    assert!(state.proof.invariants[..4].iter().all(|c| c.passed && c.detail == "pass"));
    assert!(!state.proof.invariants[4].passed);
    assert_eq!(state.proof.invariants[4].detail, "delta=0, orphaned=0, duplicateHandles=0");
}

#[test]
fn unknown_selected_key_falls_back_to_first_desired() {
    let state = run(LeakDuelRequest {
        seed: Some(9),
        chaos: Some(3),
        ticks: Some(0),
        selected: Some("attachment:nowhere".to_owned()),
    });
    assert_eq!(state.selected_receipt.key, "attachment:atlas:design:ava");
    let chosen = run(LeakDuelRequest {
        seed: Some(9),
        chaos: Some(3),
        ticks: Some(0),
        selected: Some("attachment:atlas:ops:bo".to_owned()),
    });
    assert_eq!(chosen.selected_receipt.key, "attachment:atlas:ops:bo");
}

#[test]
fn short_key_strips_prefix_and_spaces_colons() {
    assert_eq!(short_key("attachment:atlas:ops:ava"), "atlas / ops / ava");
    assert_eq!(short_key("plain:key"), "plain / key");
    assert_eq!(short_key("nokey"), "nokey");
}

#[test]
fn generator_follows_the_linear_congruence() {
    let mut rng = Rng::new(0);
    assert_eq!(rng.next(), 1442695040888963407);
    assert_eq!(
        rng.next(),
        1442695040888963407u64
            .wrapping_mul(6364136223846793005)
            .wrapping_add(1442695040888963407)
    );
}

#[test]
fn events_change_the_inputs() {
    let mut inputs = initial_inputs();
    let mut rng = Rng::new(1337 ^ (8u64 << 32));
    for tick in 1..=30 {
        let event = next_event(&mut rng, tick, 8, &inputs);
        let before = inputs.clone();
        apply_event(&mut inputs, &event);
        match event.kind {
            EventKind::Offline => assert!(!inputs.network_online),
            EventKind::Reconnect => assert!(inputs.network_online),
            EventKind::SwitchWorkspace => assert_ne!(inputs.workspace, before.workspace),
            EventKind::JoinRoom => assert!(inputs.joined_rooms.contains(&event.subject)),
            EventKind::LeaveRoom => assert!(!inputs.joined_rooms.contains(&event.subject)),
            EventKind::GrantRoom => assert!(inputs.permission_grants.contains(&event.subject)),
            EventKind::RevokeRoom => assert!(!inputs.permission_grants.contains(&event.subject)),
            EventKind::ToggleFollow => assert_ne!(
                inputs.follows.contains(&event.subject),
                before.follows.contains(&event.subject)
            ),
        }
        assert!(event.detail.ends_with(event.subject.as_str()));
    }
}

#[test]
fn offline_empties_the_desired_set() {
    let mut inputs = initial_inputs();
    assert_eq!(desired_attachments(&inputs).len(), 4);
    let event = ChaosEvent {
        kind: EventKind::Offline,
        label: "Network offline".to_owned(),
        detail: String::new(),
        subject: String::new(),
        noisy: true,
    };
    apply_event(&mut inputs, &event);
    assert!(desired_attachments(&inputs).is_empty());
}

fn offline_event(noisy: bool) -> ChaosEvent {
    ChaosEvent {
        kind: EventKind::Offline,
        label: "Network offline".to_owned(),
        detail: "socket dropped".to_owned(),
        subject: String::new(),
        noisy,
    }
}

#[test]
fn noisy_offline_misses_closes_under_chaos() {
    let inputs = initial_inputs();
    let before = desired_attachments(&inputs);
    let after = StrSet::new();
    let mut open = counted(&before);
    let note = apply_naive(&mut open, &before, &after, &offline_event(true), 8);
    assert_eq!(open.len(), 4);
    assert_eq!(
        note,
        "missed close for atlas / design / ava; missed close for atlas / design / bo; missed close for atlas / ops / ava; missed close for atlas / ops / bo"
    );
    let stale = stats(&open, &after, "drift");
    assert_eq!(stale.open, 4);
    assert_eq!(stale.delta, 4);
    assert_eq!(stale.orphaned, 4);
    assert_eq!(stale.verdict, "drifting");
}

#[test]
fn quiet_offline_closes_every_stream() {
    let inputs = initial_inputs();
    let before = desired_attachments(&inputs);
    let after = StrSet::new();
    let mut open = counted(&before);
    let note = apply_naive(&mut open, &before, &after, &offline_event(false), 8);
    assert_eq!(open.len(), 0);
    assert_eq!(note, "handlers happened to balance for this event");
    let clean = stats(&open, &after, "drift");
    assert_eq!(clean.verdict, "drift");
    assert_eq!(clean.delta, 0);
}

#[test]
fn replayed_reconnect_double_opens() {
    let inputs = initial_inputs();
    let desired = desired_attachments(&inputs);
    let mut open = counted(&desired);
    let event = ChaosEvent {
        kind: EventKind::Reconnect,
        label: "Network reconnect".to_owned(),
        detail: String::new(),
        subject: String::new(),
        noisy: true,
    };
    let note = apply_naive(&mut open, &desired, &desired, &event, 9);
    assert_eq!(
        note,
        "double-opened atlas / design / ava; double-opened atlas / design / bo"
    );
    assert_eq!(open.get("attachment:atlas:design:ava"), Some(&2));
    assert_eq!(open.get("attachment:atlas:ops:bo"), Some(&1));
    let s = stats(&open, &desired, "drift");
    assert_eq!(s.open, 6);
    assert_eq!(s.should_open, 4);
    assert_eq!(s.delta, 2);
    assert_eq!(s.duplicate_handles, 2);
    assert_eq!(s.orphaned, 0);
    let checks = duel_invariants(&s, &s);
    assert!(!checks[0].passed);
    assert_eq!(checks[0].detail, "fail");
    assert!(checks[4].passed);
    assert_eq!(checks[4].detail, "delta=2, orphaned=0, duplicateHandles=2");
}

#[test]
fn reconciling_side_plans_opens_and_closes() {
    let mut inputs = initial_inputs();
    let (mut side, mut open) = TrellisSide::new(&inputs);
    assert_eq!(open.len(), 4);
    let event = ChaosEvent {
        kind: EventKind::LeaveRoom,
        label: "Leave room".to_owned(),
        detail: "left ops".to_owned(),
        subject: "ops".to_owned(),
        noisy: true,
    };
    apply_event(&mut inputs, &event);
    let note = side.apply(&inputs, &mut open, "Leave room");
    assert_eq!(note, "0 open, 2 close from the resource plan");
    assert_eq!(open.len(), 2);
    assert!(open.contains_key("attachment:atlas:design:bo"));
    assert!(!open.contains_key("attachment:atlas:ops:bo"));
}

#[test]
fn receipt_for_a_key_not_desired() {
    let inputs = initial_inputs();
    let should = desired_attachments(&inputs);
    let actions: StrMap<String> = StrMap::new();
    let receipt = receipt_for("attachment:beacon:ops:cy", &inputs, &should, &actions);
    assert_eq!(receipt.status, "not-owned");
    assert_eq!(receipt.title, "why Trellis does not keep this open");
    assert_eq!(
        receipt.steps[1].detail,
        "desiredAttachments does not contain attachment:beacon:ops:cy"
    );
    assert_eq!(receipt.steps[2].detail, "no open command in the current desired set");
}
