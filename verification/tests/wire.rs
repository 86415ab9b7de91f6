use platformer::command::{PlayerCommand, PlayerStateCommand};
use platformer::mapper::WireError;
use platformer::scalar::{Scalar, Vec2};
use platformer::state::{Color, GameState, PlayerState, SceneObject, SpawnPoint};
use platformer::wire::MAX_DATAGRAM;

fn s(x: f32) -> Scalar {
    Scalar::from_bits(x.to_bits())
}

fn world() -> GameState {
    GameState::new(
        vec![],
        s(800.0),
        s(600.0),
        SpawnPoint { x: s(100.0), y: s(100.0) },
        SceneObject { x: s(2750.0), y: s(159.0), w: s(100.0), h: s(20.0) },
    )
}

fn player(id: u32, name: &str, x: f32, y: f32, color: Color) -> PlayerState {
    PlayerState {
        id,
        name: name.to_string(),
        pos: Vec2::new(s(x), s(y)),
        vel: Vec2::new(s(0.0), s(0.0)),
        grounded: true,
        jump_timer: s(0.0),
        color,
        size: s(32.0),
    }
}

fn commands_bytes() -> Vec<u8> {
    vec![
        1, 0, 0, 0, // sequence
        0x1b, 0x41, 0, 0, 0, 0, 0, 0, // dt_micros = 16667
        8, 7, 6, 5, 4, 3, 2, 1, // client_timestamp_micros
        2, 0, // count
        1, 2, // MoveRight, Jump
    ]
}

fn snapshot_bytes() -> Vec<u8> {
    vec![
        7, 0, 0, 0, // sequence
        9, 0, 0, 0, 0, 0, 0, 0, // server_timestamp
        1, 0, 0, 0, // client player: id
        2, b'c', b'p', // name
        0, 0, 0x80, 0x3f, 0, 0, 0, 0x40, // pos (1.0, 2.0)
        0, 0, 0x80, 0x41, // size 16.0
        0, // Red
        0, 0, 0, 0x3f, 0, 0, 0x80, 0xbf, // vel (0.5, -1.0)
        1, // grounded
        0, 0, 0x80, 0x3e, // jump_timer 0.25
        1, 0, // count
        2, 0, 0, 0, // other player: id
        1, b'o', // name
        0, 0, 0x40, 0x40, 0, 0, 0x80, 0x40, // pos (3.0, 4.0)
        0, 0, 0, 0x42, // size 32.0
        2, // Blue
    ]
}

#[test]
fn commands_datagram_has_the_documented_layout() {
    let bundle = PlayerStateCommand {
        sequence: 1,
        dt_micros: 16667,
        commands: vec![PlayerCommand::MoveRight, PlayerCommand::Jump],
        client_timestamp_micros: 0x0102_0304_0506_0708,
    };
    assert_eq!(bundle.serialize().unwrap(), commands_bytes());
}

#[test]
fn commands_round_trip() {
    let bundle = PlayerStateCommand {
        sequence: 4_000_000_000,
        dt_micros: u64::MAX,
        commands: vec![
            PlayerCommand::MoveLeft,
            PlayerCommand::MoveRight,
            PlayerCommand::Jump,
            PlayerCommand::Jump,
        ],
        client_timestamp_micros: 1_700_000_000_123_456,
    };
    let bytes = bundle.serialize().unwrap();
    assert_eq!(bytes.len(), 22 + 4);
    let back = PlayerStateCommand::deserialize(&bytes).unwrap();
    assert_eq!(back.sequence, bundle.sequence);
    assert_eq!(back.dt_micros, bundle.dt_micros);
    assert_eq!(back.commands, bundle.commands);
    assert_eq!(back.client_timestamp_micros, bundle.client_timestamp_micros);
}

#[test]
fn empty_bundle_round_trips() {
    let bundle = PlayerStateCommand {
        sequence: 0,
        dt_micros: 0,
        commands: vec![],
        client_timestamp_micros: 0,
    };
    let bytes = bundle.serialize().unwrap();
    assert_eq!(bytes, vec![0u8; 22]);
    let back = PlayerStateCommand::deserialize(&bytes).unwrap();
    assert!(back.commands.is_empty());
}

#[test]
fn commands_decode_reads_the_documented_layout() {
    let back = PlayerStateCommand::deserialize(&commands_bytes()).unwrap();
    assert_eq!(back.sequence, 1);
    assert_eq!(back.dt_micros, 16667);
    assert_eq!(back.client_timestamp_micros, 0x0102_0304_0506_0708);
    assert_eq!(back.commands, vec![PlayerCommand::MoveRight, PlayerCommand::Jump]);
}

#[test]
fn malformed_commands_are_refused() {
    let good = commands_bytes();
    // truncated at every length
    for n in 0..good.len() {
        assert_eq!(
            PlayerStateCommand::deserialize(&good[..n]).err(),
            Some(WireError::Malformed),
            "prefix of length {}",
            n
        );
    }
    // trailing byte
    let mut long = good.clone();
    long.push(0);
    assert_eq!(PlayerStateCommand::deserialize(&long).err(), Some(WireError::Malformed));
    // unknown input
    let mut unknown = good.clone();
    unknown[23] = 3;
    assert_eq!(PlayerStateCommand::deserialize(&unknown).err(), Some(WireError::Malformed));
    // count that disagrees with what follows
    let mut count = good.clone();
    count[20] = 1;
    assert_eq!(PlayerStateCommand::deserialize(&count).err(), Some(WireError::Malformed));
}

#[test]
fn bundle_larger_than_a_datagram_is_too_large() {
    let fits = PlayerStateCommand {
        sequence: 0,
        dt_micros: 0,
        commands: vec![PlayerCommand::Jump; MAX_DATAGRAM - 22],
        client_timestamp_micros: 0,
    };
    let bytes = fits.serialize().unwrap();
    assert_eq!(bytes.len(), MAX_DATAGRAM);
    assert_eq!(PlayerStateCommand::deserialize(&bytes).unwrap().commands.len(), MAX_DATAGRAM - 22);

    let too_many = PlayerStateCommand {
        sequence: 0,
        dt_micros: 0,
        commands: vec![PlayerCommand::Jump; MAX_DATAGRAM - 21],
        client_timestamp_micros: 0,
    };
    assert_eq!(too_many.serialize().err(), Some(WireError::TooLarge));
}

#[test]
fn snapshot_datagram_has_the_documented_layout() {
    let mut state = world();
    state.players.push(PlayerState {
        id: 1,
        name: "cp".to_string(),
        pos: Vec2::new(s(1.0), s(2.0)),
        vel: Vec2::new(s(0.5), s(-1.0)),
        grounded: true,
        jump_timer: s(0.25),
        color: Color::Red,
        size: s(16.0),
    });
    state.players.push(PlayerState {
        id: 2,
        name: "o".to_string(),
        pos: Vec2::new(s(3.0), s(4.0)),
        vel: Vec2::new(s(9.0), s(9.0)),
        grounded: true,
        jump_timer: s(9.0),
        color: Color::Blue,
        size: s(32.0),
    });
    assert_eq!(state.serialize(1, 7, 9).unwrap(), snapshot_bytes());
}

#[test]
fn snapshot_decode_reads_the_documented_layout() {
    let snapshot = GameState::deserialize(&snapshot_bytes()).unwrap();
    assert_eq!(snapshot.sequence, 7);
    assert_eq!(snapshot.server_timestamp, 9);
    let me = &snapshot.client_player;
    assert_eq!(me.id, 1);
    assert_eq!(me.name, "cp");
    assert_eq!(me.pos, Vec2::new(s(1.0), s(2.0)));
    assert_eq!(me.vel, Vec2::new(s(0.5), s(-1.0)));
    assert!(me.grounded);
    assert_eq!(me.jump_timer, s(0.25));
    assert_eq!(me.color, Color::Red);
    assert_eq!(me.size, s(16.0));
    assert_eq!(snapshot.players.len(), 1);
    let other = &snapshot.players[0];
    assert_eq!(other.id, 2);
    assert_eq!(other.name, "o");
    assert_eq!(other.pos, Vec2::new(s(3.0), s(4.0)));
    assert_eq!(other.size, s(32.0));
    assert_eq!(other.color, Color::Blue);
    // what the wire does not carry is at rest
    assert_eq!(other.vel, Vec2::zero());
    assert!(!other.grounded);
    assert_eq!(other.jump_timer, Scalar::zero());
}

#[test]
fn test_client_server_communication() {
    // The client's packet, as it goes to the server
    let now: u64 = 1_700_000_000_000_000;
    let packet = PlayerStateCommand {
        sequence: 1,
        dt_micros: 16667, // ~60fps
        commands: vec![PlayerCommand::MoveRight, PlayerCommand::Jump],
        client_timestamp_micros: now,
    }
    .serialize()
    .unwrap();
    assert!(packet.len() <= 2048);
    let received = PlayerStateCommand::deserialize(&packet).unwrap();
    assert_eq!(received.sequence, 1);
    assert_eq!(received.commands, vec![PlayerCommand::MoveRight, PlayerCommand::Jump]);

    // The server's response
    let mut game_state = world();
    // Add a client player (id: 1)
    game_state.players.push(player(1, "client_player", 100.0, 100.0, Color::Red));
    // Add another player (id: 2) that should appear in the players list
    game_state.players.push(player(2, "other_player", 200.0, 200.0, Color::Blue));
    let response = game_state.serialize(1, 0, now).unwrap();
    assert!(response.len() <= 2048);

    // The client reads it
    let snapshot = GameState::deserialize(&response).unwrap();

    // Verify we got both the client player and other player
    assert_eq!(snapshot.client_player.id, 1, "Client player should have id 1");
    assert_eq!(snapshot.players.len(), 1, "Should have 1 other player");
    assert!(snapshot.players.iter().any(|p| p.id == 2), "Other player should have id 2");

    assert_eq!(snapshot.client_player.name, "client_player");
    assert!(snapshot.client_player.grounded);
    assert_eq!(snapshot.client_player.size, s(32.0));
    assert_eq!(snapshot.players[0].name, "other_player");
    assert_eq!(snapshot.players[0].pos, Vec2::new(s(200.0), s(200.0)));
    assert_eq!(snapshot.players[0].color, Color::Blue);
    assert_eq!(snapshot.sequence, 0);
    assert_eq!(snapshot.server_timestamp, now);
}

#[test]
fn names_beyond_ascii_round_trip() {
    let mut state = world();
    state.players.push(player(1, "Zoë ☃", 0.0, 0.0, Color::Green));
    state.players.push(player(2, "日本語", 0.0, 0.0, Color::Green));
    let bytes = state.serialize(2, 3, 4).unwrap();
    let snapshot = GameState::deserialize(&bytes).unwrap();
    assert_eq!(snapshot.client_player.name, "日本語");
    assert_eq!(snapshot.players[0].name, "Zoë ☃");
    assert_eq!(snapshot.players[0].color, Color::Green);
}

#[test]
fn malformed_snapshots_are_refused() {
    let good = snapshot_bytes();
    assert!(GameState::deserialize(&good).is_ok());
    for n in 0..good.len() {
        assert_eq!(
            GameState::deserialize(&good[..n]).err(),
            Some(WireError::Malformed),
            "prefix of length {}",
            n
        );
    }
    let mut long = good.clone();
    long.push(0);
    assert_eq!(GameState::deserialize(&long).err(), Some(WireError::Malformed));

    // colour of the client player
    let mut colour = good.clone();
    colour[31] = 3;
    assert_eq!(GameState::deserialize(&colour).err(), Some(WireError::Malformed));

    // ground contact must be 0 or 1
    let mut flag = good.clone();
    flag[40] = 2;
    assert_eq!(GameState::deserialize(&flag).err(), Some(WireError::Malformed));

    // a name that is not UTF-8
    let mut name = good.clone();
    name[17] = 0xff;
    assert_eq!(GameState::deserialize(&name).err(), Some(WireError::Malformed));

    // a count that promises more players than follow
    let mut count = good.clone();
    count[45] = 2;
    assert_eq!(GameState::deserialize(&count).err(), Some(WireError::Malformed));
}

/// A snapshot without other players whose own player has the given name
/// bytes and size.
fn lone_player(name: &[u8], size: f32) -> Vec<u8> {
    let mut bytes = vec![0u8; 12];
    bytes.extend_from_slice(&[1, 0, 0, 0]);
    bytes.push(name.len() as u8);
    bytes.extend_from_slice(name);
    bytes.extend_from_slice(&[0u8; 8]);
    bytes.extend_from_slice(&size.to_le_bytes());
    bytes.extend_from_slice(&[0u8; 1 + 8 + 1 + 4]);
    bytes.extend_from_slice(&[0, 0]);
    bytes
}

#[test]
fn name_longer_than_its_limit_is_refused() {
    let snapshot = GameState::deserialize(&lone_player(&[b'a'; 64], 16.0)).unwrap();
    assert_eq!(snapshot.client_player.name.len(), 64);
    assert_eq!(
        GameState::deserialize(&lone_player(&[b'a'; 65], 16.0)).err(),
        Some(WireError::Malformed)
    );
}

#[test]
fn size_that_is_not_positive_is_refused() {
    assert!(GameState::deserialize(&lone_player(b"a", f32::MIN_POSITIVE)).is_ok());
    assert!(GameState::deserialize(&lone_player(b"a", f32::INFINITY)).is_ok());
    for size in [0.0f32, -0.0, -1.0, f32::NEG_INFINITY, f32::NAN] {
        assert_eq!(
            GameState::deserialize(&lone_player(b"a", size)).err(),
            Some(WireError::Malformed),
            "size {}",
            size
        );
    }
}

#[test]
fn positive_is_what_the_number_says() {
    for x in [1.0f32, 16.0, 1e-40, f32::MAX, f32::INFINITY, f32::MIN_POSITIVE] {
        assert!(s(x).is_positive(), "{}", x);
        assert!(x > 0.0);
    }
    for x in [0.0f32, -0.0, -1.0, -1e-40, f32::NEG_INFINITY, f32::NAN, -f32::NAN] {
        assert!(!s(x).is_positive(), "{}", x);
        assert!(!(x > 0.0));
    }
}

#[test]
fn snapshot_larger_than_a_datagram_is_too_large() {
    let mut state = world();
    for id in 1..=200u32 {
        state.players.push(player(id, "p", 0.0, 0.0, Color::Red));
    }
    // 45 + 1 + 199 * 19 bytes would be needed
    assert_eq!(state.serialize(1, 0, 0).err(), Some(WireError::TooLarge));

    let mut state = world();
    for id in 1..=106u32 {
        state.players.push(player(id, "p", 0.0, 0.0, Color::Red));
    }
    // 45 + 1 + 105 * 19 = 2041
    let bytes = state.serialize(1, 0, 0).unwrap();
    assert_eq!(bytes.len(), 2041);
    assert_eq!(GameState::deserialize(&bytes).unwrap().players.len(), 105);
}

#[test]
fn datagram_above_the_limit_is_refused() {
    let bytes = vec![0u8; MAX_DATAGRAM + 1];
    assert_eq!(GameState::deserialize(&bytes).err(), Some(WireError::Malformed));
    assert_eq!(PlayerStateCommand::deserialize(&bytes).err(), Some(WireError::Malformed));
}

#[test]
fn player_records_are_appended_at_the_returned_offset() {
    let p = player(5, "ab", 1.0, 2.0, Color::Green);
    let mut out = vec![0xaa, 0xbb];
    let offset = p.offset_player(&mut out);
    assert_eq!(offset, 2);
    assert_eq!(out.len(), 2 + 18 + 2);
    assert_eq!(&out[2..6], &[5, 0, 0, 0]);
    assert_eq!(&out[6..9], &[2, b'a', b'b']);
    assert_eq!(out[out.len() - 1], 1);
    let offset = p.offset_client_player(&mut out);
    assert_eq!(offset, 22);
    assert_eq!(out.len(), 22 + 31 + 2);
}
