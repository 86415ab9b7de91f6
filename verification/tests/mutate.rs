use platformer::command::{CommandContent, PlayerCommand, PlayerStateCommand, ScheduledCommand};
use platformer::mutate::FIXED_DT_MICROS;
use platformer::queue::CommandQueue;
use platformer::scalar::{Scalar, Vec2};
use platformer::state::{
    Applied, Color, GameState, SceneObject, SpawnPoint, DEFAULT_SIZE_BITS, JUMP_CD_BITS,
};

fn s(x: f32) -> Scalar {
    Scalar::from_bits(x.to_bits())
}

fn world() -> GameState {
    GameState::new(
        vec![],
        s(800.0),
        s(600.0),
        SpawnPoint { x: s(100.0), y: s(100.0) },
        SceneObject { x: s(2750.0), y: s(159.0), w: s(100.0), h: s(20.0) },
    )
}

fn bundle(
    player_id: u32,
    timestamp: u64,
    delay: u64,
    commands: Vec<PlayerCommand>,
) -> CommandContent {
    CommandContent {
        player_id,
        player_state_command: PlayerStateCommand {
            sequence: 0,
            dt_micros: 16667,
            commands,
            client_timestamp_micros: timestamp,
        },
        client_delay_micros: delay,
    }
}

fn at(t: u64, command: PlayerCommand) -> ScheduledCommand {
    ScheduledCommand { execute_at_timestamp: t, player_id: 1, client_dt_ms: 16, command }
}

#[test]
fn substep_length_is_sixteen_milliseconds() {
    assert_eq!(FIXED_DT_MICROS, 16_000);
}

#[test]
fn advance_cuts_time_into_whole_substeps_and_keeps_the_rest() {
    let mut state = world();
    let plan = state.mutate(&vec![], 40_000, None, 1_000_000);
    assert_eq!(plan.substeps.len(), 2);
    assert_eq!(plan.substeps[0].execute_time, 960_000);
    assert_eq!(plan.substeps[1].execute_time, 976_000);
    assert!(plan.late.is_empty());
    assert_eq!(plan.client_player_id, None);
    assert_eq!(state.cached_dt_micros, 8_000);

    // The rest is consumed by the next advance: 8000 + 8000 is one substep.
    let plan = state.mutate(&vec![], 8_000, Some(3), 1_008_000);
    assert_eq!(plan.substeps.len(), 1);
    assert_eq!(plan.substeps[0].execute_time, 992_000);
    assert_eq!(plan.client_player_id, Some(3));
    assert_eq!(state.cached_dt_micros, 0);
}

#[test]
fn leftover_time_is_always_below_one_substep() {
    for dt in [0u64, 1, 15_999, 16_000, 16_001, 31_999, 32_000, 100_000, 1_234_567] {
        let mut state = world();
        state.cached_dt_micros = 15_999;
        let plan = state.mutate(&vec![], dt, None, 10_000_000);
        assert!(state.cached_dt_micros < FIXED_DT_MICROS);
        assert_eq!(state.cached_dt_micros, (15_999 + dt) % 16_000);
        assert_eq!(plan.substeps.len() as u64, (15_999 + dt) / 16_000);
    }
}

#[test]
fn less_than_one_substep_runs_no_physics() {
    let mut state = world();
    let plan = state.mutate(
        &vec![bundle(1, 500, 0, vec![PlayerCommand::Jump])],
        15_999,
        None,
        1_000_000,
    );
    assert!(plan.substeps.is_empty());
    assert_eq!(plan.late.len(), 1);
    assert_eq!(plan.late[0].command, PlayerCommand::Jump);
    assert_eq!(state.cached_dt_micros, 15_999);
    assert!(state.scheduled_commands.is_empty());
}

#[test]
fn inputs_run_in_the_substep_at_which_they_are_due() {
    let mut state = world();
    let batch = vec![
        bundle(1, 990_000, 0, vec![PlayerCommand::Jump]),
        bundle(2, 970_000, 0, vec![PlayerCommand::MoveLeft]),
        bundle(3, 900_000, 50_000, vec![PlayerCommand::MoveRight]),
    ];
    let plan = state.mutate(&batch, 40_000, None, 1_000_000);

    assert_eq!(plan.substeps.len(), 2);
    // substep 0 at 960000: the input of player 3, due at 900000 + 50000
    assert_eq!(plan.substeps[0].commands.len(), 1);
    assert_eq!(plan.substeps[0].commands[0].player_id, 3);
    assert_eq!(plan.substeps[0].commands[0].execute_at_timestamp, 950_000);
    assert_eq!(plan.substeps[0].commands[0].command, PlayerCommand::MoveRight);
    // substep 1 at 976000: the input of player 2
    assert_eq!(plan.substeps[1].commands.len(), 1);
    assert_eq!(plan.substeps[1].commands[0].player_id, 2);
    // due after the last substep: late
    assert_eq!(plan.late.len(), 1);
    assert_eq!(plan.late[0].player_id, 1);
    assert_eq!(plan.late[0].execute_at_timestamp, 990_000);

    for substep in &plan.substeps {
        for c in &substep.commands {
            assert!(c.execute_at_timestamp <= substep.execute_time);
        }
    }
    assert!(state.scheduled_commands.is_empty());
}

#[test]
fn frame_length_is_scheduled_in_whole_milliseconds() {
    let mut state = world();
    let plan = state.mutate(
        &vec![bundle(1, 10, 5, vec![PlayerCommand::MoveRight])],
        16_000,
        None,
        1_000_000,
    );
    let c = plan.substeps[0].commands[0];
    assert_eq!(c.client_dt_ms, 16);
    assert_eq!(c.execute_at_timestamp, 15);
    assert_eq!(c.player_id, 1);
}

#[test]
fn inputs_of_one_bundle_keep_their_order() {
    let mut state = world();
    let plan = state.mutate(
        &vec![bundle(
            1,
            100,
            0,
            vec![PlayerCommand::MoveRight, PlayerCommand::Jump, PlayerCommand::MoveLeft],
        )],
        16_000,
        None,
        1_000_000,
    );
    let got: Vec<PlayerCommand> = plan.substeps[0].commands.iter().map(|c| c.command).collect();
    assert_eq!(
        got,
        vec![PlayerCommand::MoveRight, PlayerCommand::Jump, PlayerCommand::MoveLeft]
    );
}

#[test]
fn schedule_orders_by_instant_across_bundles() {
    let mut state = world();
    state.schedule(&vec![
        bundle(1, 30, 0, vec![PlayerCommand::Jump]),
        bundle(2, 10, 0, vec![PlayerCommand::MoveLeft]),
        bundle(3, 20, 0, vec![PlayerCommand::MoveRight]),
        bundle(4, 10, 0, vec![PlayerCommand::Jump]),
    ]);
    assert_eq!(state.scheduled_commands.len(), 4);
    let due = state.execute_commands(20);
    let who: Vec<u32> = due.iter().map(|c| c.player_id).collect();
    assert_eq!(who, vec![2, 4, 3]);
    assert_eq!(state.scheduled_commands.len(), 1);
    assert_eq!(state.scheduled_commands.peek().map(|c| c.player_id), Some(1));
}

#[test]
fn clear_cache_forgets_time_and_queue() {
    let mut state = world();
    state.cached_dt_micros = 123;
    state.schedule(&vec![bundle(1, 30, 0, vec![PlayerCommand::Jump])]);
    state.clear_cache();
    assert_eq!(state.cached_dt_micros, 0);
    assert!(state.scheduled_commands.is_empty());
}

#[test]
fn queue_hands_out_earliest_first_and_equal_instants_in_arrival_order() {
    let mut q = CommandQueue::new();
    q.push(at(5, PlayerCommand::Jump));
    q.push(at(3, PlayerCommand::MoveLeft));
    q.push(at(5, PlayerCommand::MoveRight));
    q.push(at(4, PlayerCommand::Jump));
    assert_eq!(q.len(), 4);
    assert_eq!(q.peek(), Some(at(3, PlayerCommand::MoveLeft)));
    assert_eq!(q.pop(), Some(at(3, PlayerCommand::MoveLeft)));
    assert_eq!(q.pop(), Some(at(4, PlayerCommand::Jump)));
    assert_eq!(q.pop(), Some(at(5, PlayerCommand::Jump)));
    assert_eq!(q.pop(), Some(at(5, PlayerCommand::MoveRight)));
    assert_eq!(q.pop(), None);
    assert!(q.is_empty());
}

#[test]
fn queue_take_due_and_drain() {
    let mut q = CommandQueue::new();
    for t in [9u64, 1, 5, 3, 7] {
        q.push(at(t, PlayerCommand::Jump));
    }
    let due: Vec<u64> = q.take_due(5).iter().map(|c| c.execute_at_timestamp).collect();
    assert_eq!(due, vec![1, 3, 5]);
    assert!(q.take_due(6).is_empty());
    let rest: Vec<u64> = q.drain().iter().map(|c| c.execute_at_timestamp).collect();
    assert_eq!(rest, vec![7, 9]);
    assert!(q.is_empty());
    q.push(at(2, PlayerCommand::Jump));
    q.clear();
    assert_eq!(q.len(), 0);
}

#[test]
fn unknown_player_is_created_at_the_spawn_point() {
    let mut state = world();
    let applied = state.execute_scheduled_command(&at(0, PlayerCommand::Jump));
    assert_eq!(applied, Applied { index: 0, jumped: false });
    assert_eq!(state.players.len(), 1);
    let p = &state.players[0];
    assert_eq!(p.id, 1);
    assert_eq!(p.name, "player");
    assert_eq!(p.pos, Vec2::new(s(100.0), s(100.0)));
    assert_eq!(p.vel, Vec2::zero());
    assert!(!p.grounded);
    assert_eq!(p.jump_timer, s(0.0));
    assert_eq!(p.color, Color::Red);
    assert_eq!(f32::from_bits(p.size.to_bits()), 16.0);

    // a known player is found again and nothing is added
    let again = state.execute_scheduled_command(&at(9, PlayerCommand::MoveLeft));
    assert_eq!(again.index, 0);
    assert_eq!(state.players.len(), 1);

    let other = ScheduledCommand {
        execute_at_timestamp: 0,
        player_id: 7,
        client_dt_ms: 16,
        command: PlayerCommand::Jump,
    };
    assert_eq!(state.execute_scheduled_command(&other).index, 1);
    assert_eq!(state.players[1].id, 7);
    assert!(state.check());
    assert!(state.player(7).is_some());
    assert!(state.player(8).is_none());
}

#[test]
fn bundle_whose_instant_overflows_is_not_schedulable() {
    assert!(bundle(1, u64::MAX - 5, 5, vec![]).is_schedulable());
    assert!(!bundle(1, u64::MAX - 5, 6, vec![]).is_schedulable());
}

#[test]
fn update_state_takes_over_players_only() {
    let mut state = world();
    state.cached_dt_micros = 77;
    let mut other = world();
    other.execute_scheduled_command(&at(0, PlayerCommand::Jump));
    other.cached_dt_micros = 5;
    state.update_state(other);
    assert_eq!(state.players.len(), 1);
    assert_eq!(state.cached_dt_micros, 77);
}

#[test]
fn constants_are_the_bits_of_their_numbers() {
    assert_eq!(JUMP_CD_BITS, 0.3f32.to_bits());
    assert_eq!(DEFAULT_SIZE_BITS, 16.0f32.to_bits());
}

#[test]
fn jump_is_gated_by_ground_contact_and_cooldown() {
    let mut state = world();
    state.execute_scheduled_command(&at(0, PlayerCommand::MoveRight));
    let jump = at(1, PlayerCommand::Jump);

    // in the air nothing starts, however long the last jump is ago
    state.players[0].grounded = false;
    state.players[0].jump_timer = s(10.0);
    assert!(!state.players[0].can_jump());
    assert_eq!(state.execute_scheduled_command(&jump), Applied { index: 0, jumped: false });
    assert_eq!(state.players[0].jump_timer, s(10.0));

    // on the ground, but the waiting time has not passed
    state.players[0].grounded = true;
    for timer in [0.0f32, 0.016, 0.29, 0.3, -1.0, f32::NAN] {
        state.players[0].jump_timer = s(timer);
        assert!(!state.players[0].can_jump(), "timer {}", timer);
        assert!(!(timer > 0.3));
        assert!(!state.execute_scheduled_command(&jump).jumped);
        assert_eq!(state.players[0].jump_timer.to_bits(), timer.to_bits());
    }

    // on the ground and rested: the jump starts and the timer starts over
    for timer in [0.30000004f32, 0.31, 1.0, 1e9, f32::INFINITY] {
        state.players[0].jump_timer = s(timer);
        assert!(timer > 0.3);
        assert!(state.players[0].can_jump(), "timer {}", timer);
        assert_eq!(state.execute_scheduled_command(&jump), Applied { index: 0, jumped: true });
        assert_eq!(state.players[0].jump_timer, s(0.0));
        // a second jump right away is blocked
        assert!(!state.execute_scheduled_command(&jump).jumped);
    }

    // other inputs never start a jump and leave the timer alone
    state.players[0].jump_timer = s(5.0);
    assert!(!state.execute_scheduled_command(&at(2, PlayerCommand::MoveLeft)).jumped);
    assert!(!state.execute_scheduled_command(&at(2, PlayerCommand::MoveRight)).jumped);
    assert_eq!(state.players[0].jump_timer, s(5.0));
}

#[test]
fn above_compares_as_the_numbers_do() {
    let threshold = 0.3f32;
    for x in [
        0.0f32, -0.0, 0.1, 0.29999998, 0.3, 0.30000004, 1.0, 1e-40, -1e-40, -0.5, -5.0,
        f32::MAX, f32::MIN, f32::INFINITY, f32::NEG_INFINITY, f32::NAN,
    ] {
        assert_eq!(s(x).is_above(s(threshold)), x > threshold, "{}", x);
    }
}

#[test]
fn roster_check_finds_what_is_wrong() {
    let mut state = world();
    state.execute_scheduled_command(&at(0, PlayerCommand::Jump));
    let second = ScheduledCommand {
        execute_at_timestamp: 0,
        player_id: 2,
        client_dt_ms: 16,
        command: PlayerCommand::Jump,
    };
    state.execute_scheduled_command(&second);
    assert!(state.check());

    // an identity twice
    state.players[1].id = 1;
    assert!(!state.check());
    state.players[1].id = 2;
    assert!(state.check());

    // a name beyond its limit: 64 bytes fit, 65 do not
    state.players[0].name = "é".repeat(32);
    assert!(state.check());
    state.players[0].name = "é".repeat(32) + "a";
    assert!(!state.check());
    state.players[0].name = "a".to_string();

    // a size that is not greater than zero
    state.players[1].size = s(0.0);
    assert!(!state.check());
    state.players[1].size = s(-16.0);
    assert!(!state.check());
    state.players[1].size = s(0.5);
    assert!(state.check());
}
