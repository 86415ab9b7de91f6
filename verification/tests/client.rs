use platformer::command::{PlayerCommand, PlayerStateCommand, ScheduledCommand};
use platformer::delay_queue::DelayQueue;
use platformer::game_logic::{KeyState, Screen};
use platformer::game_loop::GameLoop;
use platformer::interpolator::{Interpolator, Lerp, Progress};
use platformer::mutate::TickPlan;
use platformer::network::Network;
use platformer::predictor::Predictor;
use platformer::scalar::{Scalar, Vec2};
use platformer::snapshot::{upsert, Snapshot};
use platformer::state::{Color, GameState, PlayerState, SceneObject, SpawnPoint};

fn s(x: f32) -> Scalar {
    Scalar::from_bits(x.to_bits())
}

fn world() -> GameState {
    GameState::new(
        vec![],
        s(800.0),
        s(600.0),
        SpawnPoint { x: s(100.0), y: s(100.0) },
        SceneObject { x: s(2750.0), y: s(159.0), w: s(100.0), h: s(20.0) },
    )
}

fn player(id: u32, x: f32, y: f32) -> PlayerState {
    PlayerState {
        id,
        name: format!("Player {}", id),
        pos: Vec2::new(s(x), s(y)),
        vel: Vec2::zero(),
        grounded: false,
        jump_timer: s(0.0),
        color: Color::Red,
        size: s(32.0),
    }
}

fn frame_bundle(sequence: u32, now: u64) -> PlayerStateCommand {
    PlayerStateCommand {
        sequence,
        dt_micros: 16_667,
        commands: vec![PlayerCommand::MoveRight],
        client_timestamp_micros: now,
    }
}

fn commands_of(plan: &TickPlan) -> Vec<ScheduledCommand> {
    let mut all = Vec::new();
    for substep in &plan.substeps {
        all.extend(substep.commands.iter().copied());
    }
    all.extend(plan.late.iter().copied());
    all
}

#[test]
fn delay_queue_releases_in_order_after_the_delay() {
    // three outbound bundles at t = 0, 1, 2 ms with a delay of 100 ms
    let mut q: DelayQueue<u32> = DelayQueue::new();
    q.push(0, 100, 10);
    q.push(1_000, 100, 11);
    q.push(2_000, 100, 12);
    assert_eq!(q.len(), 3);

    assert!(q.pop_ready(0).is_empty());
    assert!(q.pop_ready(99_999).is_empty());
    assert_eq!(q.pop_ready(100_000), vec![10]);
    assert!(q.pop_ready(100_999).is_empty());
    assert_eq!(q.pop_ready(101_000), vec![11]);
    assert!(q.pop_ready(101_999).is_empty());
    assert_eq!(q.pop_ready(102_000), vec![12]);
    assert_eq!(q.len(), 0);

    // released together, they keep their order
    let mut q: DelayQueue<u32> = DelayQueue::new();
    q.push(0, 100, 10);
    q.push(1_000, 100, 11);
    q.push(2_000, 100, 12);
    assert_eq!(q.pop_ready(500_000), vec![10, 11, 12]);
}

#[test]
fn delay_queue_waits_for_its_front() {
    // after the delay was lowered a later entry may be due before an earlier one
    let mut q: DelayQueue<&str> = DelayQueue::new();
    q.push(0, 300, "slow");
    q.push(10_000, 0, "fast");
    assert!(q.pop_ready(10_000).is_empty());
    assert_eq!(q.pop_ready(300_000), vec!["slow", "fast"]);
}

#[test]
fn delay_queue_latest_drops_the_older_ones() {
    let mut q: DelayQueue<u32> = DelayQueue::new();
    assert_eq!(q.pop_latest(5), None);
    q.push(0, 1, 1);
    q.push(0, 2, 2);
    q.push(0, 3, 3);
    q.push(0, 9, 4);
    assert_eq!(q.pop_latest(999), None);
    assert_eq!(q.pop_latest(3_000), Some(3));
    assert_eq!(q.len(), 1);
    assert_eq!(q.pop_latest(9_000), Some(4));
    assert_eq!(q.pop_latest(9_000), None);
}

#[test]
fn network_sends_bundles_in_order_after_the_delay() {
    let mut net = Network::new(100);
    assert_eq!(net.delay(), 100);
    net.send(frame_bundle(0, 0), 0);
    net.send(frame_bundle(1, 1_000), 1_000);
    net.send(frame_bundle(2, 2_000), 2_000);
    assert!(net.poll_commands(99_999).is_empty());
    let first = net.poll_commands(101_500);
    assert_eq!(first.len(), 2);
    assert_eq!(PlayerStateCommand::deserialize(&first[0]).unwrap().sequence, 0);
    assert_eq!(PlayerStateCommand::deserialize(&first[1]).unwrap().sequence, 1);
    let second = net.poll_commands(102_000);
    assert_eq!(second.len(), 1);
    assert_eq!(PlayerStateCommand::deserialize(&second[0]).unwrap().sequence, 2);
    assert!(net.poll_commands(u64::MAX).is_empty());
}

#[test]
fn network_hands_on_the_latest_snapshot_that_is_due() {
    let mut state = world();
    state.players.push(player(1, 0.0, 0.0));
    let mut net = Network::new(300);
    for sequence in 1..=3u32 {
        let bytes = state.serialize(1, sequence, 0).unwrap();
        assert!(net.receive(&bytes, sequence as u64 * 1_000));
    }
    assert!(!net.receive(&[1, 2, 3], 4_000));
    assert!(net.poll_state(300_999).is_none());
    let got = net.poll_state(302_500).unwrap();
    assert_eq!(got.sequence, 2);
    let got = net.poll_state(303_000).unwrap();
    assert_eq!(got.sequence, 3);
    assert!(net.poll_state(u64::MAX).is_none());

    net.set_delay(0);
    assert_eq!(net.delay(), 0);
    let bytes = state.serialize(1, 9, 0).unwrap();
    assert!(net.receive(&bytes, 400_000));
    assert_eq!(net.poll_state(400_000).unwrap().sequence, 9);
}

#[test]
fn new_predictor_is_on_and_starts_at_zero() {
    let p = Predictor::new();
    assert!(p.active_prediction);
    assert!(p.active_reconciliation);
    assert_eq!(p.sequence, 0);
    assert_eq!(p.unconfirmed_len(), 0);
}

#[test]
fn prediction_schedules_the_bundle_without_delay_and_remembers_it() {
    let mut state = world();
    let mut p = Predictor::new();
    let now: u64 = 1_000_000;
    let bundle = frame_bundle(p.sequence, now - 20_000);
    let plan = p.predict(&mut state, 4, Some(&bundle), 16_667, now).unwrap();
    assert_eq!(plan.client_player_id, Some(4));
    assert_eq!(plan.substeps.len(), 1);
    let applied = commands_of(&plan);
    assert_eq!(applied.len(), 1);
    assert_eq!(applied[0].player_id, 4);
    assert_eq!(applied[0].execute_at_timestamp, now - 20_000);
    assert_eq!(applied[0].command, PlayerCommand::MoveRight);
    assert_eq!(p.sequence, 1);
    assert_eq!(p.unconfirmed_len(), 1);
    assert_eq!(state.cached_dt_micros, 667);

    // without a bundle only time passes
    let plan = p.predict(&mut state, 4, None, 16_000, now + 16_000).unwrap();
    assert_eq!(plan.substeps.len(), 1);
    assert!(commands_of(&plan).is_empty());
    assert_eq!(p.sequence, 1);
    assert_eq!(p.unconfirmed_len(), 1);
    assert_eq!(state.cached_dt_micros, 667);
}

#[test]
fn prediction_switched_off_does_nothing() {
    let mut state = world();
    state.cached_dt_micros = 5;
    let mut p = Predictor::new();
    p.active_prediction = false;
    let bundle = frame_bundle(0, 10);
    assert!(p.predict(&mut state, 1, Some(&bundle), 16_667, 1_000_000).is_none());
    assert_eq!(p.sequence, 0);
    assert_eq!(p.unconfirmed_len(), 0);
    assert_eq!(state.cached_dt_micros, 5);
}

#[test]
fn sequence_number_wraps_around() {
    let mut state = world();
    let mut p = Predictor::new();
    p.sequence = u32::MAX;
    let bundle = frame_bundle(u32::MAX, 10);
    p.predict(&mut state, 1, Some(&bundle), 0, 1_000_000).unwrap();
    assert_eq!(p.sequence, 0);
}

#[test]
fn reconciliation_drops_what_was_acknowledged_and_replays_the_rest() {
    // The client predicts 18 frames while the server sees none of them.
    let mut state = world();
    let mut p = Predictor::new();
    let start: u64 = 1_700_000_000_000_000;
    for frame in 0..18u64 {
        let now = start + frame * 16_667;
        let bundle = frame_bundle(p.sequence, now);
        p.predict(&mut state, 1, Some(&bundle), 16_667, now).unwrap();
    }
    assert_eq!(p.sequence, 18);
    assert_eq!(p.unconfirmed_len(), 18);

    // A snapshot acknowledges sequence 5 after a delay of 300 ms.
    let now = start + 18 * 16_667;
    let plan = p.reconciliation(&mut state, 5, 1, 300_000, now).unwrap();
    assert_eq!(p.unconfirmed_len(), 12);
    assert_eq!(plan.client_player_id, Some(1));
    // the replay covers the round trip: twice the delay
    assert_eq!(plan.substeps.len(), 600_000 / 16_000);
    assert_eq!(state.cached_dt_micros, 600_000 % 16_000);
    assert!(state.scheduled_commands.is_empty());
    // exactly the unacknowledged inputs are replayed, oldest first
    let replayed = commands_of(&plan);
    assert_eq!(replayed.len(), 12);
    for (i, c) in replayed.iter().enumerate() {
        assert_eq!(c.execute_at_timestamp, start + (6 + i as u64) * 16_667);
        assert_eq!(c.player_id, 1);
    }
    for substep in &plan.substeps {
        for c in &substep.commands {
            assert!(c.execute_at_timestamp <= substep.execute_time);
        }
    }
    // prediction goes on with the next sequence number
    assert_eq!(p.sequence, 18);
}

#[test]
fn reconciliation_twice_with_the_same_snapshot_changes_nothing_more() {
    let mut state = world();
    let mut p = Predictor::new();
    for frame in 0..10u64 {
        let bundle = frame_bundle(p.sequence, 1_000_000 + frame * 16_667);
        p.predict(&mut state, 1, Some(&bundle), 16_667, 1_000_000 + frame * 16_667).unwrap();
    }
    let now = 2_000_000;
    let first = p.reconciliation(&mut state, 3, 1, 40_000, now).unwrap();
    let after_first = (p.unconfirmed_len(), p.sequence, state.cached_dt_micros);
    let second = p.reconciliation(&mut state, 3, 1, 40_000, now).unwrap();
    let after_second = (p.unconfirmed_len(), p.sequence, state.cached_dt_micros);
    assert_eq!(after_first, (6, 10, 80_000 % 16_000));
    assert_eq!(after_first, after_second);
    assert_eq!(commands_of(&first), commands_of(&second));
    assert_eq!(first.substeps.len(), second.substeps.len());
    for (a, b) in first.substeps.iter().zip(second.substeps.iter()) {
        assert_eq!(a.execute_time, b.execute_time);
        assert_eq!(a.commands, b.commands);
    }
    assert!(state.scheduled_commands.is_empty());
}

#[test]
fn reconciliation_switched_off_does_nothing() {
    let mut state = world();
    let mut p = Predictor::new();
    let bundle = frame_bundle(0, 10);
    p.predict(&mut state, 1, Some(&bundle), 100, 1_000_000).unwrap();
    p.active_reconciliation = false;
    assert!(p.reconciliation(&mut state, 9, 1, 0, 1_000_000).is_none());
    assert_eq!(p.unconfirmed_len(), 1);
    assert_eq!(state.cached_dt_micros, 100);
}

#[test]
fn reconciliation_clears_left_over_time() {
    let mut state = world();
    state.cached_dt_micros = 15_000;
    let mut p = Predictor::new();
    let plan = p.reconciliation(&mut state, 0, 1, 500, 1_000_000).unwrap();
    assert!(plan.substeps.is_empty());
    assert_eq!(state.cached_dt_micros, 1_000);
}

#[test]
fn snapshot_replaces_the_players() {
    let mut state = world();
    state.players.push(player(9, 1.0, 1.0));
    state.cached_dt_micros = 42;
    let snapshot = Snapshot {
        players: vec![player(2, 20.0, 0.0), player(3, 30.0, 0.0), player(2, 25.0, 0.0)],
        client_player: player(1, 10.0, 0.0),
        sequence: 0,
        server_timestamp: 0,
    };
    state.apply_snapshot(&snapshot);
    let ids: Vec<u32> = state.players.iter().map(|p| p.id).collect();
    assert_eq!(ids, vec![2, 3, 1]);
    // of a repeated identity the later occurrence stands
    assert_eq!(state.players[0].pos, Vec2::new(s(25.0), s(0.0)));
    assert_eq!(state.cached_dt_micros, 42);
    assert!(state.check());

    let roster = snapshot.roster();
    assert_eq!(roster.iter().map(|p| p.id).collect::<Vec<_>>(), vec![2, 3]);
}

#[test]
fn upsert_replaces_in_place_or_appends() {
    let mut players = vec![player(1, 0.0, 0.0), player(2, 0.0, 0.0)];
    upsert(&mut players, player(1, 5.0, 5.0));
    assert_eq!(players.len(), 2);
    assert_eq!(players[0].pos, Vec2::new(s(5.0), s(5.0)));
    upsert(&mut players, player(3, 7.0, 7.0));
    assert_eq!(players.iter().map(|p| p.id).collect::<Vec<_>>(), vec![1, 2, 3]);
}

#[test]
fn interpolation_places_the_others_between_the_two_snapshots() {
    let mut state = world();
    state.players.push(player(1, 0.0, 0.0));
    state.players.push(player(2, 10.0, 10.0));
    let mut it = Interpolator::new(&state, 1_000_000);

    // before a second snapshot both ends are the same point and the span is zero
    let r = it.interpolate(&state, 1, 1_005_000).unwrap();
    assert_eq!(r.progress, Progress { elapsed_millis: 5, span_millis: 0 });
    assert_eq!(
        r.tasks,
        vec![Lerp {
            player_id: 2,
            start: Vec2::new(s(10.0), s(10.0)),
            end: Vec2::new(s(10.0), s(10.0))
        }]
    );

    it.set_new_state(vec![player(2, 20.0, 10.0), player(3, 1.0, 2.0)], 1_050_000);
    state.players.push(player(3, 1.0, 2.0));
    state.players.push(player(4, 8.0, 8.0));

    let r = it.interpolate(&state, 1, 1_062_500).unwrap();
    assert_eq!(r.progress, Progress { elapsed_millis: 12, span_millis: 50 });
    assert_eq!(
        r.tasks,
        vec![
            // at the start where the older snapshot had it, at the end where the newer has it
            Lerp {
                player_id: 2,
                start: Vec2::new(s(10.0), s(10.0)),
                end: Vec2::new(s(20.0), s(10.0))
            },
            // missing from the older snapshot: there at the origin
            Lerp { player_id: 3, start: Vec2::zero(), end: Vec2::new(s(1.0), s(2.0)) },
            // missing from both
            Lerp { player_id: 4, start: Vec2::zero(), end: Vec2::zero() },
        ]
    );
    // the locally controlled player is never placed
    assert!(r.tasks.iter().all(|t| t.player_id != 1));

    assert_eq!(it.update_t(1_050_000), Progress { elapsed_millis: 0, span_millis: 50 });
    assert_eq!(it.update_t(1_100_000), Progress { elapsed_millis: 50, span_millis: 50 });
    // the next snapshot may be late: then more than the span has passed
    assert_eq!(it.update_t(1_125_999), Progress { elapsed_millis: 75, span_millis: 50 });
    // a clock reading before the arrival counts as the arrival
    assert_eq!(it.update_t(0), Progress { elapsed_millis: 0, span_millis: 50 });
}

#[test]
fn interpolation_switched_off_places_nobody() {
    let mut state = world();
    state.players.push(player(2, 10.0, 10.0));
    let mut it = Interpolator::new(&state, 0);
    it.active = false;
    assert!(it.interpolate(&state, 1, 10).is_none());
}

#[test]
fn a_frame_takes_snapshot_then_input_then_places_the_others() {
    let start: u64 = 1_700_000_000_000_000;
    let mut game = GameLoop::new(world(), start);
    assert_eq!(game.client_player_id, 1);
    assert_eq!(*game.ui_state.current_screen(), Screen::MainMenu);
    game.ui_state.push(Screen::InGame);

    // two frames of input before the first snapshot
    let held = KeyState { escape: false, right: true, left: false, jump: true };
    for frame in 0..2u64 {
        let now = start + frame * 16_000;
        let out = game.take_input(held, 16_000, now);
        let bundle = out.command.unwrap();
        assert_eq!(bundle.sequence, frame as u32);
        assert_eq!(bundle.dt_micros, 16_000);
        assert_eq!(bundle.client_timestamp_micros, now);
        assert_eq!(bundle.commands, vec![PlayerCommand::MoveRight, PlayerCommand::Jump]);
        let plan = out.plan.unwrap();
        assert_eq!(plan.client_player_id, Some(1));
        assert_eq!(plan.substeps.len(), 1);
        assert_eq!(commands_of(&plan).len(), 2);
    }
    assert_eq!(game.predictor.sequence, 2);
    assert_eq!(game.predictor.unconfirmed_len(), 2);

    // a snapshot names the local player 7, shows player 2, and acknowledges sequence 0
    let now = start + 40_000;
    let snapshot = Snapshot {
        players: vec![player(2, 50.0, 60.0)],
        client_player: player(7, 10.0, 20.0),
        sequence: 0,
        server_timestamp: now - 5_000,
    };
    let plan = game.take_snapshot(&snapshot, now).unwrap();
    assert_eq!(game.client_player_id, 7);
    assert_eq!(game.game_state.players.iter().map(|p| p.id).collect::<Vec<_>>(), vec![2, 7]);
    assert_eq!(game.predictor.unconfirmed_len(), 1);
    assert_eq!(plan.client_player_id, Some(7));
    // the replay covers twice the 5 ms the snapshot was under way
    assert!(plan.substeps.is_empty());
    assert_eq!(game.game_state.cached_dt_micros, 10_000);
    let replayed = commands_of(&plan);
    assert_eq!(replayed.len(), 2);
    assert!(replayed.iter().all(|c| c.execute_at_timestamp == start + 16_000));

    // a frame without keys sends nothing, and time still passes
    let out = game.take_input(
        KeyState { escape: true, right: false, left: false, jump: false },
        16_000,
        now + 16_000,
    );
    assert!(out.command.is_none());
    assert_eq!(out.plan.unwrap().substeps.len(), 1);
    assert_eq!(game.game_state.cached_dt_micros, 10_000);
    assert_eq!(*game.ui_state.current_screen(), Screen::PauseMenu);
    assert_eq!(game.predictor.sequence, 2);

    // the other player is placed, the local one is not
    let placed = game.place_others(now + 20_000).unwrap();
    assert_eq!(placed.tasks.len(), 1);
    assert_eq!(placed.tasks[0].player_id, 2);
    // the older snapshot did not have it, the newer has it at (50, 60)
    assert_eq!(placed.tasks[0].start, Vec2::zero());
    assert_eq!(placed.tasks[0].end, Vec2::new(s(50.0), s(60.0)));
    assert_eq!(placed.progress, Progress { elapsed_millis: 20, span_millis: 40 });
}
