//! From a frame's key presses to the frame's input bundle.

use crate::command::{PlayerCommand, PlayerStateCommand, PlayerStateCommandView};
use crate::game_logic::ui_state::{after_escape, UiState};
use crate::server::delay_of;
use vstd::prelude::*;

verus! {

/// The keys that matter, as sampled in one frame.
#[derive(Debug, Clone, Copy, PartialEq, Eq, Structural)]
pub struct KeyState {
    /// Escape went down in this frame.
    pub escape: bool,
    /// A key for moving right is held.
    pub right: bool,
    /// A key for moving left is held.
    pub left: bool,
    /// A key for jumping is held.
    pub jump: bool,
}

/// The inputs that `keys` stand for: right, left, jump, in this order,
/// each if its key is held.
pub open spec fn commands_of(keys: KeyState) -> Seq<PlayerCommand> {
    (if keys.right {
        seq![PlayerCommand::MoveRight]
    } else {
        Seq::empty()
    }) + (if keys.left {
        seq![PlayerCommand::MoveLeft]
    } else {
        Seq::empty()
    }) + (if keys.jump {
        seq![PlayerCommand::Jump]
    } else {
        Seq::empty()
    })
}

/// Handles one frame's keys: Escape moves between screens, the other keys
/// become the frame's inputs.
pub fn input_handler(ui_state: &mut UiState, keys: KeyState) -> (commands: Vec<PlayerCommand>)
    ensures
        final(ui_state)@ == if keys.escape {
            after_escape(old(ui_state)@)
        } else {
            old(ui_state)@
        },
        commands@ == commands_of(keys),
{
    if keys.escape {
        ui_state.escape();
    }
    let mut commands: Vec<PlayerCommand> = Vec::new();
    if keys.right {
        commands.push(PlayerCommand::MoveRight);
    }
    if keys.left {
        commands.push(PlayerCommand::MoveLeft);
    }
    if keys.jump {
        commands.push(PlayerCommand::Jump);
    }
    commands
}

/// The input bundle of a frame: nothing if the frame has no input,
/// otherwise the inputs under the given sequence number, frame length and
/// sampling time.
pub fn stamp_command(
    commands: Vec<PlayerCommand>,
    sequence: u32,
    dt_micros: u64,
    now_micros: u64,
) -> (bundle: Option<PlayerStateCommand>)
    ensures
        bundle is None <==> commands@.len() == 0,
        bundle is Some ==> bundle.unwrap()@ == (PlayerStateCommandView {
            sequence,
            dt_micros,
            commands: commands@,
            client_timestamp_micros: now_micros,
        }),
{
    if commands.len() == 0 {
        None
    } else {
        Some(
            PlayerStateCommand {
                sequence,
                dt_micros,
                commands,
                client_timestamp_micros: now_micros,
            },
        )
    }
}

/// How long a snapshot made at `server_timestamp` was under way when it is
/// taken in at `now_micros`; zero if the authority's clock is ahead.
pub fn server_delay(now_micros: u64, server_timestamp: u64) -> (delay: u64)
    ensures
        delay == delay_of(now_micros, server_timestamp),
{
    if now_micros >= server_timestamp {
        now_micros - server_timestamp
    } else {
        0
    }
}

} // verus!
