//! The datagram formats, as functions on byte sequences.
//!
//! Every field has a fixed width or carries its length in front; integers
//! are little-endian and scalars travel as their four bytes. A datagram
//! holds exactly one message and nothing else, so each message has exactly
//! one encoding: [`parse_commands`] and [`parse_snapshot`] accept a byte
//! sequence if and only if it is the encoding of a message.
//!
//! ```text
//! commands  := sequence:u32 dt_micros:u64 client_timestamp_micros:u64
//!              count:u16 command:u8 * count
//! snapshot  := sequence:u32 server_timestamp:u64 client_player
//!              count:u16 player * count
//! player    := id:u32 name_len:u8 name:u8 * name_len pos:vec2 size:u32 color:u8
//! client_player := player vel:vec2 grounded:u8 jump_timer:u32
//! vec2      := x:u32 y:u32
//! ```
//!
//! A command is 0 (left), 1 (right) or 2 (jump); a colour is 0 (red),
//! 1 (green) or 2 (blue); `grounded` is 0 or 1. A name is at most
//! [`MAX_NAME_BYTES`] bytes of UTF-8, a size is greater than zero, and no
//! datagram is longer than [`MAX_DATAGRAM`] bytes.

use crate::command::{PlayerCommand, PlayerStateCommandView};
use crate::scalar::{Scalar, Vec2};
use crate::state::{Color, PlayerStateView, MAX_NAME_BYTES};
use vstd::bytes::{
    spec_u16_from_le_bytes, spec_u16_to_le_bytes, spec_u32_from_le_bytes, spec_u32_to_le_bytes,
    spec_u64_from_le_bytes, spec_u64_to_le_bytes,
};
use vstd::prelude::*;
use vstd::utf8::{decode_utf8, encode_utf8, valid_utf8};

verus! {

/// Largest datagram, in bytes.
pub const MAX_DATAGRAM: usize = 2048;

/// What one snapshot datagram says.
pub struct SnapshotView {
    /// Every player but the recipient, without the kinematics that only
    /// the recipient's own player carries.
    pub players: Seq<PlayerStateView>,
    /// The recipient's own player in full.
    pub client_player: PlayerStateView,
    /// Highest sequence number of the recipient's that the tick folded in.
    pub sequence: u32,
    /// Microseconds since the Unix epoch at which the snapshot was made.
    pub server_timestamp: u64,
}

/// The byte of an input.
pub open spec fn command_byte(c: PlayerCommand) -> u8 {
    match c {
        PlayerCommand::MoveLeft => 0,
        PlayerCommand::MoveRight => 1,
        PlayerCommand::Jump => 2,
    }
}

/// The input of a byte below 3.
pub open spec fn command_of_byte(b: u8) -> PlayerCommand {
    if b == 0 {
        PlayerCommand::MoveLeft
    } else if b == 1 {
        PlayerCommand::MoveRight
    } else {
        PlayerCommand::Jump
    }
}

/// The byte of a colour.
pub open spec fn color_byte(c: Color) -> u8 {
    match c {
        Color::Red => 0,
        Color::Green => 1,
        Color::Blue => 2,
    }
}

/// The colour of a byte below 3.
pub open spec fn color_of_byte(b: u8) -> Color {
    if b == 0 {
        Color::Red
    } else if b == 1 {
        Color::Green
    } else {
        Color::Blue
    }
}

/// The byte of a flag.
pub open spec fn flag_byte(flag: bool) -> u8 {
    if flag {
        1
    } else {
        0
    }
}

/// A player as other players' snapshots show it: velocity, ground contact
/// and jump timer are left at rest.
pub open spec fn bare(p: PlayerStateView) -> PlayerStateView {
    PlayerStateView {
        vel: Vec2::spec_zero(),
        grounded: false,
        jump_timer: Scalar::spec_zero(),
        ..p
    }
}

// ---------------------------------------------------------------- encoding

pub open spec fn encode_vec2(v: Vec2) -> Seq<u8> {
    spec_u32_to_le_bytes(v.x.bits) + spec_u32_to_le_bytes(v.y.bits)
}

pub open spec fn encode_name(name: Seq<char>) -> Seq<u8> {
    seq![encode_utf8(name).len() as u8] + encode_utf8(name)
}

/// The fields every player shows to everybody.
#[verifier::opaque]
pub open spec fn encode_player(p: PlayerStateView) -> Seq<u8> {
    spec_u32_to_le_bytes(p.id) + encode_name(p.name) + encode_vec2(p.pos) + spec_u32_to_le_bytes(
        p.size.bits,
    ) + seq![color_byte(p.color)]
}

/// A player in full, as its own client sees it.
#[verifier::opaque]
pub open spec fn encode_client_player(p: PlayerStateView) -> Seq<u8> {
    encode_player(p) + encode_vec2(p.vel) + seq![flag_byte(p.grounded)] + spec_u32_to_le_bytes(
        p.jump_timer.bits,
    )
}

pub open spec fn encode_players(players: Seq<PlayerStateView>) -> Seq<u8>
    decreases players.len(),
{
    if players.len() == 0 {
        Seq::empty()
    } else {
        encode_player(players[0]) + encode_players(players.drop_first())
    }
}

pub open spec fn encode_command_list(commands: Seq<PlayerCommand>) -> Seq<u8> {
    Seq::new(commands.len(), |i: int| command_byte(commands[i]))
}

/// The datagram of an input bundle.
pub open spec fn encode_commands(c: PlayerStateCommandView) -> Seq<u8> {
    spec_u32_to_le_bytes(c.sequence) + spec_u64_to_le_bytes(c.dt_micros) + spec_u64_to_le_bytes(
        c.client_timestamp_micros,
    ) + spec_u16_to_le_bytes(c.commands.len() as u16) + encode_command_list(c.commands)
}

/// The datagram of a snapshot.
pub open spec fn encode_snapshot(s: SnapshotView) -> Seq<u8> {
    spec_u32_to_le_bytes(s.sequence) + spec_u64_to_le_bytes(s.server_timestamp)
        + encode_client_player(s.client_player) + spec_u16_to_le_bytes(s.players.len() as u16)
        + encode_players(s.players)
}

/// Whether a bundle fits a datagram.
pub open spec fn commands_encodable(c: PlayerStateCommandView) -> bool {
    22 + c.commands.len() <= MAX_DATAGRAM
}

/// Whether a snapshot can be put in a datagram: every player well formed,
/// the other players bare, and the whole within the datagram size.
pub open spec fn snapshot_encodable(s: SnapshotView) -> bool {
    &&& s.client_player.wf()
    &&& forall|i: int|
        0 <= i < s.players.len() ==> (#[trigger] s.players[i]).wf() && bare(s.players[i])
            == s.players[i]
    &&& encode_snapshot(s).len() <= MAX_DATAGRAM
}

// ----------------------------------------------------------------- parsing
//
// Each parser reads one item off the front of `s` and returns it with what
// is left.

pub open spec fn parse_u16(s: Seq<u8>) -> Option<(u16, Seq<u8>)> {
    if s.len() >= 2 {
        Some((spec_u16_from_le_bytes(s.take(2)), s.skip(2)))
    } else {
        None
    }
}

pub open spec fn parse_u32(s: Seq<u8>) -> Option<(u32, Seq<u8>)> {
    if s.len() >= 4 {
        Some((spec_u32_from_le_bytes(s.take(4)), s.skip(4)))
    } else {
        None
    }
}

pub open spec fn parse_u64(s: Seq<u8>) -> Option<(u64, Seq<u8>)> {
    if s.len() >= 8 {
        Some((spec_u64_from_le_bytes(s.take(8)), s.skip(8)))
    } else {
        None
    }
}

pub open spec fn parse_vec2(s: Seq<u8>) -> Option<(Vec2, Seq<u8>)> {
    match parse_u32(s) {
        Some((x, s1)) => match parse_u32(s1) {
            Some((y, s2)) => Some((Vec2 { x: Scalar { bits: x }, y: Scalar { bits: y } }, s2)),
            None => None,
        },
        None => None,
    }
}

pub open spec fn parse_name(s: Seq<u8>) -> Option<(Seq<char>, Seq<u8>)> {
    if s.len() >= 1 && s[0] <= MAX_NAME_BYTES && s.len() >= 1 + s[0] && valid_utf8(
        s.subrange(1, 1 + s[0]),
    ) {
        Some((decode_utf8(s.subrange(1, 1 + s[0])), s.skip(1 + s[0])))
    } else {
        None
    }
}

pub open spec fn parse_size(s: Seq<u8>) -> Option<(Scalar, Seq<u8>)> {
    match parse_u32(s) {
        Some((bits, s1)) => if (Scalar { bits }).spec_is_positive() {
            Some((Scalar { bits }, s1))
        } else {
            None
        },
        None => None,
    }
}

pub open spec fn parse_color(s: Seq<u8>) -> Option<(Color, Seq<u8>)> {
    if s.len() >= 1 && s[0] < 3 {
        Some((color_of_byte(s[0]), s.skip(1)))
    } else {
        None
    }
}

pub open spec fn parse_flag(s: Seq<u8>) -> Option<(bool, Seq<u8>)> {
    if s.len() >= 1 && s[0] < 2 {
        Some((s[0] == 1, s.skip(1)))
    } else {
        None
    }
}

#[verifier::opaque]
pub open spec fn parse_player(s: Seq<u8>) -> Option<(PlayerStateView, Seq<u8>)> {
    match parse_u32(s) {
        Some((id, s1)) => match parse_name(s1) {
            Some((name, s2)) => match parse_vec2(s2) {
                Some((pos, s3)) => match parse_size(s3) {
                    Some((size, s4)) => match parse_color(s4) {
                        Some((color, s5)) => Some(
                            (
                                PlayerStateView {
                                    id,
                                    name,
                                    pos,
                                    vel: Vec2::spec_zero(),
                                    grounded: false,
                                    jump_timer: Scalar::spec_zero(),
                                    color,
                                    size,
                                },
                                s5,
                            ),
                        ),
                        None => None,
                    },
                    None => None,
                },
                None => None,
            },
            None => None,
        },
        None => None,
    }
}

#[verifier::opaque]
pub open spec fn parse_client_player(s: Seq<u8>) -> Option<(PlayerStateView, Seq<u8>)> {
    match parse_player(s) {
        Some((p, s1)) => match parse_vec2(s1) {
            Some((vel, s2)) => match parse_flag(s2) {
                Some((grounded, s3)) => match parse_u32(s3) {
                    Some((jump_timer, s4)) => Some(
                        (
                            PlayerStateView {
                                vel,
                                grounded,
                                jump_timer: Scalar { bits: jump_timer },
                                ..p
                            },
                            s4,
                        ),
                    ),
                    None => None,
                },
                None => None,
            },
            None => None,
        },
        None => None,
    }
}

pub open spec fn parse_players(s: Seq<u8>, count: nat) -> Option<(Seq<PlayerStateView>, Seq<u8>)>
    decreases count,
{
    if count == 0 {
        Some((Seq::empty(), s))
    } else {
        match parse_player(s) {
            Some((p, s1)) => match parse_players(s1, (count - 1) as nat) {
                Some((rest, s2)) => Some((seq![p] + rest, s2)),
                None => None,
            },
            None => None,
        }
    }
}

pub open spec fn parse_command_list(s: Seq<u8>, count: nat) -> Option<
    (Seq<PlayerCommand>, Seq<u8>),
> {
    if s.len() >= count && (forall|i: int| 0 <= i < count ==> #[trigger] s[i] < 3) {
        Some((Seq::new(count, |i: int| command_of_byte(s[i])), s.skip(count as int)))
    } else {
        None
    }
}

/// The bundle that `s` is the datagram of, if it is one.
pub open spec fn parse_commands(s: Seq<u8>) -> Option<PlayerStateCommandView> {
    if s.len() > MAX_DATAGRAM {
        None
    } else {
        match parse_u32(s) {
            Some((sequence, s1)) => match parse_u64(s1) {
                Some((dt_micros, s2)) => match parse_u64(s2) {
                    Some((client_timestamp_micros, s3)) => match parse_u16(s3) {
                        Some((count, s4)) => match parse_command_list(s4, count as nat) {
                            Some((commands, s5)) => if s5.len() == 0 {
                                Some(
                                    PlayerStateCommandView {
                                        sequence,
                                        dt_micros,
                                        commands,
                                        client_timestamp_micros,
                                    },
                                )
                            } else {
                                None
                            },
                            None => None,
                        },
                        None => None,
                    },
                    None => None,
                },
                None => None,
            },
            None => None,
        }
    }
}

/// The snapshot that `s` is the datagram of, if it is one.
pub open spec fn parse_snapshot(s: Seq<u8>) -> Option<SnapshotView> {
    if s.len() > MAX_DATAGRAM {
        None
    } else {
        match parse_u32(s) {
            Some((sequence, s1)) => match parse_u64(s1) {
                Some((server_timestamp, s2)) => match parse_client_player(s2) {
                    Some((client_player, s3)) => match parse_u16(s3) {
                        Some((count, s4)) => match parse_players(s4, count as nat) {
                            Some((players, s5)) => if s5.len() == 0 {
                                Some(
                                    SnapshotView {
                                        players,
                                        client_player,
                                        sequence,
                                        server_timestamp,
                                    },
                                )
                            } else {
                                None
                            },
                            None => None,
                        },
                        None => None,
                    },
                    None => None,
                },
                None => None,
            },
            None => None,
        }
    }
}

} // verus!
