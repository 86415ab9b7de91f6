//! Encoding and decoding of the two datagrams.

use crate::command::{PlayerCommand, PlayerStateCommand};
use crate::scalar::{Scalar, Vec2};
use crate::snapshot::{lemma_others, others, snapshot_for, Snapshot};
use crate::state::{
    has_player, index_of_player, lemma_position_of, players_view, roster_wf, Color, GameState,
    PlayerState, PlayerStateView, MAX_NAME_BYTES,
};
use crate::wire::{
    bare, color_byte, command_byte, command_of_byte, commands_encodable, encode_client_player,
    encode_command_list, encode_commands, encode_player, encode_players, encode_snapshot,
    encode_vec2, parse_client_player, parse_color, parse_commands, parse_flag, parse_name,
    parse_player, parse_players, parse_snapshot, parse_u16, parse_u32, parse_u64, parse_vec2,
    snapshot_encodable, SnapshotView, MAX_DATAGRAM,
};
use crate::wire_laws::{
    lemma_encode_players_push, lemma_players_len, lemma_snapshot_len, theorem_commands_round_trip,
    theorem_commands_unique, theorem_snapshot_round_trip, theorem_snapshot_unique,
};
use vstd::bytes::{
    spec_u16_to_le_bytes, spec_u32_to_le_bytes, spec_u64_to_le_bytes, u16_from_le_bytes,
    u16_to_le_bytes, u32_from_le_bytes, u32_to_le_bytes, u64_from_le_bytes, u64_to_le_bytes,
};
use vstd::prelude::*;
use vstd::slice::{slice_subrange, slice_to_vec};
use vstd::utf8::{encode_utf8, encode_utf8_decode_utf8, valid_utf8};

verus! {

/// Why a datagram could not be made or read.
#[derive(Clone, Copy, Debug, PartialEq, Eq, Structural)]
pub enum WireError {
    /// The bytes are not the encoding of any message.
    Malformed,
    /// The message does not fit a datagram.
    TooLarge,
}

/// `String::from_utf8` of the standard library: the string whose UTF-8
/// encoding is `bytes`, or nothing if `bytes` is not valid UTF-8.
#[verifier::external_body]
fn string_from_utf8(bytes: Vec<u8>) -> (text: Option<String>)
    ensures
        text is Some <==> valid_utf8(bytes@),
        text is Some ==> encode_utf8(text.unwrap()@) == bytes@,
{
    String::from_utf8(bytes).ok()
}

fn put_u16(out: &mut Vec<u8>, x: u16)
    ensures
        final(out)@ == old(out)@ + spec_u16_to_le_bytes(x),
{
    let mut bytes = u16_to_le_bytes(x);
    out.append(&mut bytes);
}

fn put_u32(out: &mut Vec<u8>, x: u32)
    ensures
        final(out)@ == old(out)@ + spec_u32_to_le_bytes(x),
{
    let mut bytes = u32_to_le_bytes(x);
    out.append(&mut bytes);
}

fn put_u64(out: &mut Vec<u8>, x: u64)
    ensures
        final(out)@ == old(out)@ + spec_u64_to_le_bytes(x),
{
    let mut bytes = u64_to_le_bytes(x);
    out.append(&mut bytes);
}

fn put_vec2(out: &mut Vec<u8>, v: Vec2)
    ensures
        final(out)@ == old(out)@ + encode_vec2(v),
{
    put_u32(out, v.x.bits);
    put_u32(out, v.y.bits);
}

fn color_to_byte(c: Color) -> (b: u8)
    ensures
        b == color_byte(c),
{
    match c {
        Color::Red => 0,
        Color::Green => 1,
        Color::Blue => 2,
    }
}

fn command_to_byte(c: PlayerCommand) -> (b: u8)
    ensures
        b == command_byte(c),
{
    match c {
        PlayerCommand::MoveLeft => 0,
        PlayerCommand::MoveRight => 1,
        PlayerCommand::Jump => 2,
    }
}

fn get_u16(bytes: &[u8], pos: usize) -> (r: Option<(u16, usize)>)
    requires
        pos <= bytes@.len(),
    ensures
        match r {
            Some((x, next)) => next <= bytes@.len() && parse_u16(bytes@.skip(pos as int)) == Some(
                (x, bytes@.skip(next as int)),
            ),
            None => parse_u16(bytes@.skip(pos as int)) is None,
        },
{
    if bytes.len() - pos < 2 {
        return None;
    }
    let x = u16_from_le_bytes(slice_subrange(bytes, pos, pos + 2));
    assert(bytes@.skip(pos as int).take(2) =~= bytes@.subrange(pos as int, pos + 2));
    Some((x, pos + 2))
}

fn get_u32(bytes: &[u8], pos: usize) -> (r: Option<(u32, usize)>)
    requires
        pos <= bytes@.len(),
    ensures
        match r {
            Some((x, next)) => next <= bytes@.len() && parse_u32(bytes@.skip(pos as int)) == Some(
                (x, bytes@.skip(next as int)),
            ),
            None => parse_u32(bytes@.skip(pos as int)) is None,
        },
{
    if bytes.len() - pos < 4 {
        return None;
    }
    let x = u32_from_le_bytes(slice_subrange(bytes, pos, pos + 4));
    assert(bytes@.skip(pos as int).take(4) =~= bytes@.subrange(pos as int, pos + 4));
    Some((x, pos + 4))
}

fn get_u64(bytes: &[u8], pos: usize) -> (r: Option<(u64, usize)>)
    requires
        pos <= bytes@.len(),
    ensures
        match r {
            Some((x, next)) => next <= bytes@.len() && parse_u64(bytes@.skip(pos as int)) == Some(
                (x, bytes@.skip(next as int)),
            ),
            None => parse_u64(bytes@.skip(pos as int)) is None,
        },
{
    if bytes.len() - pos < 8 {
        return None;
    }
    let x = u64_from_le_bytes(slice_subrange(bytes, pos, pos + 8));
    assert(bytes@.skip(pos as int).take(8) =~= bytes@.subrange(pos as int, pos + 8));
    Some((x, pos + 8))
}

fn get_vec2(bytes: &[u8], pos: usize) -> (r: Option<(Vec2, usize)>)
    requires
        pos <= bytes@.len(),
    ensures
        match r {
            Some((v, next)) => next <= bytes@.len() && parse_vec2(bytes@.skip(pos as int)) == Some(
                (v, bytes@.skip(next as int)),
            ),
            None => parse_vec2(bytes@.skip(pos as int)) is None,
        },
{
    let (x, c1) = match get_u32(bytes, pos) {
        Some(r) => r,
        None => {
            return None;
        },
    };
    let (y, c2) = match get_u32(bytes, c1) {
        Some(r) => r,
        None => {
            return None;
        },
    };
    Some((Vec2 { x: Scalar { bits: x }, y: Scalar { bits: y } }, c2))
}

fn get_name(bytes: &[u8], pos: usize) -> (r: Option<(String, usize)>)
    requires
        pos <= bytes@.len(),
    ensures
        match r {
            Some((name, next)) => next <= bytes@.len() && parse_name(bytes@.skip(pos as int))
                == Some((name@, bytes@.skip(next as int))),
            None => parse_name(bytes@.skip(pos as int)) is None,
        },
{
    let ghost s = bytes@.skip(pos as int);
    if bytes.len() - pos < 1 {
        return None;
    }
    let n: usize = bytes[pos] as usize;
    if n > MAX_NAME_BYTES || bytes.len() - pos - 1 < n {
        return None;
    }
    let raw = slice_to_vec(slice_subrange(bytes, pos + 1, pos + 1 + n));
    assert(raw@ =~= s.subrange(1, 1 + s[0]));
    match string_from_utf8(raw) {
        Some(name) => {
            proof {
                encode_utf8_decode_utf8(name@);
            }
            Some((name, pos + 1 + n))
        },
        None => None,
    }
}

fn get_color(bytes: &[u8], pos: usize) -> (r: Option<(Color, usize)>)
    requires
        pos <= bytes@.len(),
    ensures
        match r {
            Some((c, next)) => next <= bytes@.len() && parse_color(bytes@.skip(pos as int))
                == Some((c, bytes@.skip(next as int))),
            None => parse_color(bytes@.skip(pos as int)) is None,
        },
{
    if bytes.len() - pos < 1 {
        return None;
    }
    let b: u8 = bytes[pos];
    if b == 0 {
        Some((Color::Red, pos + 1))
    } else if b == 1 {
        Some((Color::Green, pos + 1))
    } else if b == 2 {
        Some((Color::Blue, pos + 1))
    } else {
        None
    }
}

fn get_flag(bytes: &[u8], pos: usize) -> (r: Option<(bool, usize)>)
    requires
        pos <= bytes@.len(),
    ensures
        match r {
            Some((f, next)) => next <= bytes@.len() && parse_flag(bytes@.skip(pos as int)) == Some(
                (f, bytes@.skip(next as int)),
            ),
            None => parse_flag(bytes@.skip(pos as int)) is None,
        },
{
    if bytes.len() - pos < 1 {
        return None;
    }
    let b: u8 = bytes[pos];
    if b < 2 {
        Some((b == 1, pos + 1))
    } else {
        None
    }
}

fn get_player(bytes: &[u8], pos: usize) -> (r: Option<(PlayerState, usize)>)
    requires
        pos <= bytes@.len(),
    ensures
        match r {
            Some((p, next)) => next <= bytes@.len() && parse_player(bytes@.skip(pos as int))
                == Some((p@, bytes@.skip(next as int))),
            None => parse_player(bytes@.skip(pos as int)) is None,
        },
{
    reveal(parse_player);
    let (id, c1) = match get_u32(bytes, pos) {
        Some(r) => r,
        None => {
            return None;
        },
    };
    let (name, c2) = match get_name(bytes, c1) {
        Some(r) => r,
        None => {
            return None;
        },
    };
    let (at, c3) = match get_vec2(bytes, c2) {
        Some(r) => r,
        None => {
            return None;
        },
    };
    let (size, c4) = match get_u32(bytes, c3) {
        Some((bits, next)) if Scalar::from_bits(bits).is_positive() => (Scalar { bits }, next),
        _ => {
            return None;
        },
    };
    let (color, c5) = match get_color(bytes, c4) {
        Some(r) => r,
        None => {
            return None;
        },
    };
    Some(
        (
            PlayerState {
                id,
                name,
                pos: at,
                vel: Vec2::zero(),
                grounded: false,
                jump_timer: Scalar::zero(),
                color,
                size,
            },
            c5,
        ),
    )
}

fn get_client_player(bytes: &[u8], pos: usize) -> (r: Option<(PlayerState, usize)>)
    requires
        pos <= bytes@.len(),
    ensures
        match r {
            Some((p, next)) => next <= bytes@.len() && parse_client_player(
                bytes@.skip(pos as int),
            ) == Some((p@, bytes@.skip(next as int))),
            None => parse_client_player(bytes@.skip(pos as int)) is None,
        },
{
    reveal(parse_client_player);
    let (shown, c1) = match get_player(bytes, pos) {
        Some(r) => r,
        None => {
            return None;
        },
    };
    let (vel, c2) = match get_vec2(bytes, c1) {
        Some(r) => r,
        None => {
            return None;
        },
    };
    let (grounded, c3) = match get_flag(bytes, c2) {
        Some(r) => r,
        None => {
            return None;
        },
    };
    let (jump_timer, c4) = match get_u32(bytes, c3) {
        Some(r) => r,
        None => {
            return None;
        },
    };
    let mut player = shown;
    player.vel = vel;
    player.grounded = grounded;
    player.jump_timer = Scalar { bits: jump_timer };
    Some((player, c4))
}

impl PlayerState {
    /// Appends the fields that everybody is shown of this player to `out`
    /// and returns the offset at which they start.
    pub fn offset_player(&self, out: &mut Vec<u8>) -> (offset: usize)
        requires
            self@.wf(),
        ensures
            offset == old(out)@.len(),
            final(out)@ == old(out)@ + encode_player(self@),
    {
        reveal(encode_player);
        let offset: usize = out.len();
        put_u32(out, self.id);
        let name = self.name.as_str().as_bytes();
        out.push(name.len() as u8);
        let mut name_bytes = slice_to_vec(name);
        out.append(&mut name_bytes);
        put_vec2(out, self.pos);
        put_u32(out, self.size.bits);
        out.push(color_to_byte(self.color));
        offset
    }

    /// Appends this player in full to `out` and returns the offset at which
    /// it starts.
    pub fn offset_client_player(&self, out: &mut Vec<u8>) -> (offset: usize)
        requires
            self@.wf(),
        ensures
            offset == old(out)@.len(),
            final(out)@ == old(out)@ + encode_client_player(self@),
    {
        reveal(encode_client_player);
        let offset = self.offset_player(out);
        put_vec2(out, self.vel);
        out.push(if self.grounded { 1 } else { 0 });
        put_u32(out, self.jump_timer.bits);
        offset
    }
}

impl PlayerStateCommand {
    /// The datagram of this bundle, or `TooLarge` if it has more inputs
    /// than a datagram holds.
    pub fn serialize(&self) -> (r: Result<Vec<u8>, WireError>)
        ensures
            match r {
                Ok(bytes) => commands_encodable(self@) && bytes@ == encode_commands(self@),
                Err(e) => e == WireError::TooLarge && !commands_encodable(self@),
            },
    {
        if self.commands.len() > MAX_DATAGRAM - 22 {
            return Err(WireError::TooLarge);
        }
        let mut out: Vec<u8> = Vec::new();
        put_u32(&mut out, self.sequence);
        put_u64(&mut out, self.dt_micros);
        put_u64(&mut out, self.client_timestamp_micros);
        put_u16(&mut out, self.commands.len() as u16);
        let ghost head = out@;
        let mut i: usize = 0;
        while i < self.commands.len()
            invariant
                i <= self.commands.len(),
                out@ == head + encode_command_list(self.commands@.take(i as int)),
            decreases self.commands.len() - i,
        {
            out.push(command_to_byte(self.commands[i]));
            i += 1;
        }
        Ok(out)
    }

    /// The bundle that `packet` is the datagram of, or `Malformed` if it is
    /// the datagram of none.
    pub fn deserialize(packet: &[u8]) -> (r: Result<PlayerStateCommand, WireError>)
        ensures
            match r {
                Ok(c) => parse_commands(packet@) == Some(c@) && commands_encodable(c@)
                    && encode_commands(c@) == packet@,
                Err(e) => e == WireError::Malformed && parse_commands(packet@) is None && forall|
                    v: crate::command::PlayerStateCommandView,
                |
                    commands_encodable(v) ==> #[trigger] encode_commands(v) != packet@,
            },
    {
        let r = decode_commands(packet);
        proof {
            if r is Some {
                theorem_commands_unique(packet@);
            } else {
                assert forall|v: crate::command::PlayerStateCommandView|
                    commands_encodable(v) implies #[trigger] encode_commands(v) != packet@ by {
                    theorem_commands_round_trip(v);
                }
            }
        }
        match r {
            Some(c) => Ok(c),
            None => Err(WireError::Malformed),
        }
    }
}

#[verifier::loop_isolation(false)]
fn decode_commands(packet: &[u8]) -> (r: Option<PlayerStateCommand>)
    ensures
        match r {
            Some(c) => parse_commands(packet@) == Some(c@),
            None => parse_commands(packet@) is None,
        },
{
    if packet.len() > MAX_DATAGRAM {
        return None;
    }
    assert(packet@.skip(0) =~= packet@);
    let (sequence, c1) = match get_u32(packet, 0) {
        Some(r) => r,
        None => {
            return None;
        },
    };
    let (dt_micros, c2) = match get_u64(packet, c1) {
        Some(r) => r,
        None => {
            return None;
        },
    };
    let (client_timestamp_micros, c3) = match get_u64(packet, c2) {
        Some(r) => r,
        None => {
            return None;
        },
    };
    let (count, c4) = match get_u16(packet, c3) {
        Some(r) => r,
        None => {
            return None;
        },
    };
    let ghost s4 = packet@.skip(c4 as int);
    if packet.len() - c4 != count as usize {
        return None;
    }
    let mut commands: Vec<PlayerCommand> = Vec::new();
    let mut i: usize = 0;
    while i < count as usize
        invariant
            i <= count,
            commands@.len() == i,
            forall|j: int| 0 <= j < i ==> #[trigger] s4[j] < 3,
            forall|j: int| 0 <= j < i ==> #[trigger] commands@[j] == command_of_byte(s4[j]),
        decreases count - i,
    {
        let b: u8 = packet[c4 + i];
        assert(b == s4[i as int]);
        let c = if b == 0 {
            PlayerCommand::MoveLeft
        } else if b == 1 {
            PlayerCommand::MoveRight
        } else if b == 2 {
            PlayerCommand::Jump
        } else {
            return None;
        };
        commands.push(c);
        i += 1;
    }
    assert(commands@ =~= Seq::new(count as nat, |j: int| command_of_byte(s4[j])));
    Some(PlayerStateCommand { sequence, dt_micros, commands, client_timestamp_micros })
}

#[verifier::loop_isolation(false)]
fn decode_snapshot(packet: &[u8]) -> (r: Option<Snapshot>)
    ensures
        match r {
            Some(s) => parse_snapshot(packet@) == Some(s@),
            None => parse_snapshot(packet@) is None,
        },
{
    if packet.len() > MAX_DATAGRAM {
        return None;
    }
    assert(packet@.skip(0) =~= packet@);
    let (sequence, c1) = match get_u32(packet, 0) {
        Some(r) => r,
        None => {
            return None;
        },
    };
    let (server_timestamp, c2) = match get_u64(packet, c1) {
        Some(r) => r,
        None => {
            return None;
        },
    };
    let (client_player, c3) = match get_client_player(packet, c2) {
        Some(r) => r,
        None => {
            return None;
        },
    };
    let (count, c4) = match get_u16(packet, c3) {
        Some(r) => r,
        None => {
            return None;
        },
    };
    let ghost s4 = packet@.skip(c4 as int);
    let mut players: Vec<PlayerState> = Vec::new();
    let mut pos: usize = c4;
    let mut i: usize = 0;
    while i < count as usize
        invariant
            i <= count,
            pos <= packet@.len(),
            players@.len() == i,
            parse_players(s4, i as nat) == Some(
                (players_view(players@), packet@.skip(pos as int)),
            ),
        decreases count - i,
    {
        match get_player(packet, pos) {
            Some((p, next)) => {
                proof {
                    lemma_parse_players_step(s4, i as nat);
                }
                players.push(p);
                pos = next;
            },
            None => {
                proof {
                    lemma_parse_players_step(s4, i as nat);
                    if parse_players(s4, count as nat) is Some {
                        lemma_parse_players_prefix(s4, i as nat + 1, count as nat);
                    }
                }
                return None;
            },
        }
        i += 1;
    }
    if pos != packet.len() {
        return None;
    }
    Some(Snapshot { players, client_player, sequence, server_timestamp })
}

/// Parsing one more player continues where parsing the ones before ended.
proof fn lemma_parse_players_step(s: Seq<u8>, n: nat)
    requires
        parse_players(s, n) is Some,
    ensures
        parse_players(s, n + 1) == match parse_player(parse_players(s, n).unwrap().1) {
            Some((p, rest)) => Some((parse_players(s, n).unwrap().0.push(p), rest)),
            None => None,
        },
    decreases n,
{
    if n == 0 {
        assert(parse_players(s, 1) == match parse_player(s) {
            Some((p, s1)) => match parse_players(s1, 0) {
                Some((rest, s2)) => Some((seq![p] + rest, s2)),
                None => None,
            },
            None => None,
        });
    } else {
        let (p, s1) = parse_player(s).unwrap();
        lemma_parse_players_step(s1, (n - 1) as nat);
    }
}

/// If a number of players parse, so does every smaller number.
proof fn lemma_parse_players_prefix(s: Seq<u8>, n: nat, m: nat)
    requires
        n <= m,
        parse_players(s, m) is Some,
    ensures
        parse_players(s, n) is Some,
    decreases n,
{
    if n > 0 {
        let (p, s1) = parse_player(s).unwrap();
        lemma_parse_players_prefix(s1, (n - 1) as nat, (m - 1) as nat);
    }
}

impl GameState {
    /// The datagram that shows this world to the player `client_player_id`:
    /// that player in full, every other player bare, the acknowledged
    /// sequence number and the time of making. `TooLarge` if it would exceed
    /// a datagram.
    pub fn serialize(&self, client_player_id: u32, sequence: u32, server_timestamp: u64) -> (r:
        Result<Vec<u8>, WireError>)
        requires
            roster_wf(self@.players),
            has_player(self@.players, client_player_id),
        ensures
            match r {
                Ok(bytes) => snapshot_encodable(
                    snapshot_for(self@.players, client_player_id, sequence, server_timestamp),
                ) && bytes@ == encode_snapshot(
                    snapshot_for(self@.players, client_player_id, sequence, server_timestamp),
                ),
                Err(e) => e == WireError::TooLarge && encode_snapshot(
                    snapshot_for(self@.players, client_player_id, sequence, server_timestamp),
                ).len() > MAX_DATAGRAM,
            },
    {
        let ghost roster = self@.players;
        let ghost shown = snapshot_for(roster, client_player_id, sequence, server_timestamp);
        let at: usize = index_of_player(&self.players, client_player_id);
        proof {
            lemma_position_of(roster, client_player_id, at as int);
            lemma_others(roster, client_player_id);
            lemma_snapshot_len(shown);
        }
        let mut body: Vec<u8> = Vec::new();
        let mut count: usize = 0;
        let mut i: usize = 0;
        while i < self.players.len()
            invariant
                i <= self.players.len(),
                roster == players_view(self.players@),
                roster_wf(roster),
                count == others(roster.take(i as int), client_player_id).len(),
                count <= i,
                body@ == encode_players(others(roster.take(i as int), client_player_id)),
                body@.len() <= MAX_DATAGRAM,
            decreases self.players.len() - i,
        {
            let ghost done = others(roster.take(i as int), client_player_id);
            proof {
                assert(roster.take(i + 1).drop_last() =~= roster.take(i as int));
            }
            if self.players[i].id != client_player_id {
                let _ = self.players[i].offset_player(&mut body);
                count += 1;
                proof {
                    lemma_encode_players_push(done, bare(roster[i as int]));
                    assert(encode_player(bare(roster[i as int])) == encode_player(
                        roster[i as int],
                    )) by {
                        reveal(encode_player);
                    }
                    lemma_others_monotone(roster, client_player_id, i + 1);
                    lemma_players_len(others(roster, client_player_id));
                    lemma_players_len(others(roster.take(i + 1), client_player_id));
                }
                if body.len() > MAX_DATAGRAM {
                    return Err(WireError::TooLarge);
                }
            }
            i += 1;
        }
        assert(roster.take(i as int) =~= roster);
        let name_len: usize = self.players[at].name.as_str().as_bytes().len();
        proof {
            lemma_players_len(shown.players);
        }
        if 45 + name_len + body.len() > MAX_DATAGRAM {
            return Err(WireError::TooLarge);
        }
        let mut out: Vec<u8> = Vec::new();
        put_u32(&mut out, sequence);
        put_u64(&mut out, server_timestamp);
        let _ = self.players[at].offset_client_player(&mut out);
        put_u16(&mut out, count as u16);
        out.append(&mut body);
        Ok(out)
    }

    /// The snapshot that `packet` is the datagram of, or `Malformed` if it
    /// is the datagram of none.
    pub fn deserialize(packet: &[u8]) -> (r: Result<Snapshot, WireError>)
        ensures
            match r {
                Ok(s) => parse_snapshot(packet@) == Some(s@) && snapshot_encodable(s@)
                    && encode_snapshot(s@) == packet@,
                Err(e) => e == WireError::Malformed && parse_snapshot(packet@) is None && forall|
                    v: SnapshotView,
                |
                    snapshot_encodable(v) ==> #[trigger] encode_snapshot(v) != packet@,
            },
    {
        let r = decode_snapshot(packet);
        proof {
            if r is Some {
                theorem_snapshot_unique(packet@);
            } else {
                assert forall|v: SnapshotView| snapshot_encodable(v) implies #[trigger] encode_snapshot(
                    v,
                ) != packet@ by {
                    theorem_snapshot_round_trip(v);
                }
            }
        }
        match r {
            Some(s) => Ok(s),
            None => Err(WireError::Malformed),
        }
    }
}

/// What a recipient is shown of a roster comes back from its datagram as
/// it went in, provided that it fits a datagram.
pub proof fn theorem_shown_round_trip(
    players: Seq<PlayerStateView>,
    recipient: u32,
    sequence: u32,
    server_timestamp: u64,
)
    requires
        roster_wf(players),
        has_player(players, recipient),
        encode_snapshot(snapshot_for(players, recipient, sequence, server_timestamp)).len()
            <= MAX_DATAGRAM,
    ensures
        snapshot_encodable(snapshot_for(players, recipient, sequence, server_timestamp)),
        parse_snapshot(
            encode_snapshot(snapshot_for(players, recipient, sequence, server_timestamp)),
        ) == Some(snapshot_for(players, recipient, sequence, server_timestamp)),
{
    let shown = snapshot_for(players, recipient, sequence, server_timestamp);
    lemma_others(players, recipient);
    theorem_snapshot_round_trip(shown);
}

/// The others among the first `n` players are a prefix of the others among
/// all, so their encoding is no longer.
proof fn lemma_others_monotone(players: Seq<PlayerStateView>, recipient: u32, n: int)
    requires
        0 <= n <= players.len(),
    ensures
        crate::wire_laws::players_len(others(players.take(n), recipient))
            <= crate::wire_laws::players_len(others(players, recipient)),
    decreases players.len() - n,
{
    if n < players.len() {
        lemma_others_monotone(players, recipient, n + 1);
        let a = others(players.take(n), recipient);
        assert(players.take(n + 1).drop_last() =~= players.take(n));
        if players[n].id != recipient {
            let p = bare(players[n]);
            lemma_encode_players_push(a, p);
            lemma_players_len(a);
            lemma_players_len(a.push(p));
        }
    } else {
        assert(players.take(n) =~= players);
    }
}

} // verus!
