//! What holds of the datagram formats: parsing undoes encoding, and only
//! encodings parse.

use crate::command::{PlayerCommand, PlayerStateCommandView};
use crate::scalar::Vec2;
use crate::state::{PlayerStateView, MAX_NAME_BYTES};
use crate::wire::{
    bare, color_byte, commands_encodable, encode_client_player, encode_command_list,
    encode_commands, encode_name, encode_player, encode_players, encode_snapshot, encode_vec2,
    flag_byte, parse_client_player, parse_command_list, parse_commands, parse_flag, parse_name,
    parse_player, parse_players, parse_snapshot, parse_u16, parse_u32, parse_u64, parse_vec2,
    snapshot_encodable, SnapshotView,
};
use vstd::bytes::{
    lemma_auto_spec_u16_to_from_le_bytes, lemma_auto_spec_u32_to_from_le_bytes,
    lemma_auto_spec_u64_to_from_le_bytes, spec_u16_to_le_bytes, spec_u32_to_le_bytes,
    spec_u64_to_le_bytes,
};
use vstd::prelude::*;
use vstd::utf8::{
    decode_utf8_encode_utf8, encode_utf8, encode_utf8_decode_utf8, encode_utf8_valid_utf8,
};

verus! {

/// Cutting a concatenation where it was joined gives the parts back.
pub proof fn lemma_split(a: Seq<u8>, rest: Seq<u8>)
    ensures
        (a + rest).take(a.len() as int) == a,
        (a + rest).skip(a.len() as int) == rest,
        (a + rest).subrange(0, a.len() as int) == a,
{
}

pub proof fn lemma_u16_round_trip(x: u16, rest: Seq<u8>)
    ensures
        spec_u16_to_le_bytes(x).len() == 2,
        parse_u16(spec_u16_to_le_bytes(x) + rest) == Some((x, rest)),
{
    lemma_auto_spec_u16_to_from_le_bytes();
    lemma_split(spec_u16_to_le_bytes(x), rest);
}

pub proof fn lemma_u32_round_trip(x: u32, rest: Seq<u8>)
    ensures
        spec_u32_to_le_bytes(x).len() == 4,
        parse_u32(spec_u32_to_le_bytes(x) + rest) == Some((x, rest)),
{
    lemma_auto_spec_u32_to_from_le_bytes();
    lemma_split(spec_u32_to_le_bytes(x), rest);
}

pub proof fn lemma_u64_round_trip(x: u64, rest: Seq<u8>)
    ensures
        spec_u64_to_le_bytes(x).len() == 8,
        parse_u64(spec_u64_to_le_bytes(x) + rest) == Some((x, rest)),
{
    lemma_auto_spec_u64_to_from_le_bytes();
    lemma_split(spec_u64_to_le_bytes(x), rest);
}

pub proof fn lemma_u16_unique(s: Seq<u8>)
    requires
        parse_u16(s) is Some,
    ensures
        s == spec_u16_to_le_bytes(parse_u16(s).unwrap().0) + parse_u16(s).unwrap().1,
{
    lemma_auto_spec_u16_to_from_le_bytes();
}

pub proof fn lemma_u32_unique(s: Seq<u8>)
    requires
        parse_u32(s) is Some,
    ensures
        s == spec_u32_to_le_bytes(parse_u32(s).unwrap().0) + parse_u32(s).unwrap().1,
{
    lemma_auto_spec_u32_to_from_le_bytes();
}

pub proof fn lemma_u64_unique(s: Seq<u8>)
    requires
        parse_u64(s) is Some,
    ensures
        s == spec_u64_to_le_bytes(parse_u64(s).unwrap().0) + parse_u64(s).unwrap().1,
{
    lemma_auto_spec_u64_to_from_le_bytes();
}

pub proof fn lemma_vec2_round_trip(v: Vec2, rest: Seq<u8>)
    ensures
        encode_vec2(v).len() == 8,
        parse_vec2(encode_vec2(v) + rest) == Some((v, rest)),
{
    let y = spec_u32_to_le_bytes(v.y.bits);
    lemma_u32_round_trip(v.x.bits, y + rest);
    lemma_u32_round_trip(v.y.bits, rest);
    assert(encode_vec2(v) + rest =~= spec_u32_to_le_bytes(v.x.bits) + (y + rest));
}

pub proof fn lemma_vec2_unique(s: Seq<u8>)
    requires
        parse_vec2(s) is Some,
    ensures
        s == encode_vec2(parse_vec2(s).unwrap().0) + parse_vec2(s).unwrap().1,
{
    lemma_u32_unique(s);
    let s1 = parse_u32(s).unwrap().1;
    lemma_u32_unique(s1);
}

pub proof fn lemma_name_round_trip(name: Seq<char>, rest: Seq<u8>)
    requires
        encode_utf8(name).len() <= MAX_NAME_BYTES,
    ensures
        encode_name(name).len() == 1 + encode_utf8(name).len(),
        parse_name(encode_name(name) + rest) == Some((name, rest)),
{
    let bytes = encode_utf8(name);
    let s = encode_name(name) + rest;
    encode_utf8_valid_utf8(name);
    encode_utf8_decode_utf8(name);
    assert(s.subrange(1, 1 + s[0]) =~= bytes);
}

pub proof fn lemma_name_unique(s: Seq<u8>)
    requires
        parse_name(s) is Some,
    ensures
        encode_utf8(parse_name(s).unwrap().0).len() <= MAX_NAME_BYTES,
        s == encode_name(parse_name(s).unwrap().0) + parse_name(s).unwrap().1,
{
    let bytes = s.subrange(1, 1 + s[0]);
    decode_utf8_encode_utf8(bytes);
}

pub proof fn lemma_flag_round_trip(flag: bool, rest: Seq<u8>)
    ensures
        parse_flag(seq![flag_byte(flag)] + rest) == Some((flag, rest)),
{
}

pub proof fn lemma_flag_unique(s: Seq<u8>)
    requires
        parse_flag(s) is Some,
    ensures
        s == seq![flag_byte(parse_flag(s).unwrap().0)] + parse_flag(s).unwrap().1,
{
}

/// Parsing a player's encoding gives the player back, bare.
pub proof fn lemma_player_round_trip(p: PlayerStateView, rest: Seq<u8>)
    requires
        p.wf(),
    ensures
        encode_player(p).len() == 18 + encode_utf8(p.name).len(),
        parse_player(encode_player(p) + rest) == Some((bare(p), rest)),
{
    reveal(encode_player);
    reveal(parse_player);
    let t5 = rest;
    let t4 = seq![color_byte(p.color)] + t5;
    let t3 = spec_u32_to_le_bytes(p.size.bits) + t4;
    let t2 = encode_vec2(p.pos) + t3;
    let t1 = encode_name(p.name) + t2;
    let s = encode_player(p) + rest;
    lemma_u32_round_trip(p.id, t1);
    lemma_name_round_trip(p.name, t2);
    lemma_vec2_round_trip(p.pos, t3);
    lemma_u32_round_trip(p.size.bits, t4);
    assert(s =~= spec_u32_to_le_bytes(p.id) + t1);
}

/// Length of a player's encoding.
pub proof fn lemma_player_round_trip_len(p: PlayerStateView)
    ensures
        encode_player(p).len() == 18 + encode_utf8(p.name).len(),
        encode_client_player(p).len() == 31 + encode_utf8(p.name).len(),
{
    reveal(encode_player);
    reveal(encode_client_player);
    lemma_auto_spec_u32_to_from_le_bytes();
}

/// Only a player's encoding parses as a player.
pub proof fn lemma_player_unique(s: Seq<u8>)
    requires
        parse_player(s) is Some,
    ensures
        parse_player(s).unwrap().0.wf(),
        bare(parse_player(s).unwrap().0) == parse_player(s).unwrap().0,
        s == encode_player(parse_player(s).unwrap().0) + parse_player(s).unwrap().1,
{
    reveal(encode_player);
    reveal(parse_player);
    lemma_u32_unique(s);
    let s1 = parse_u32(s).unwrap().1;
    lemma_name_unique(s1);
    let s2 = parse_name(s1).unwrap().1;
    lemma_vec2_unique(s2);
    let s3 = parse_vec2(s2).unwrap().1;
    lemma_u32_unique(s3);
}

/// Parsing a client player's encoding gives the player back in full.
pub proof fn lemma_client_player_round_trip(p: PlayerStateView, rest: Seq<u8>)
    requires
        p.wf(),
    ensures
        encode_client_player(p).len() == 31 + encode_utf8(p.name).len(),
        parse_client_player(encode_client_player(p) + rest) == Some((p, rest)),
{
    reveal(encode_client_player);
    reveal(parse_client_player);
    let t3 = spec_u32_to_le_bytes(p.jump_timer.bits) + rest;
    let t2 = seq![flag_byte(p.grounded)] + t3;
    let t1 = encode_vec2(p.vel) + t2;
    let s = encode_client_player(p) + rest;
    lemma_player_round_trip(p, t1);
    lemma_vec2_round_trip(p.vel, t2);
    lemma_flag_round_trip(p.grounded, t3);
    lemma_u32_round_trip(p.jump_timer.bits, rest);
    assert(s =~= encode_player(p) + t1);
}

/// Only a client player's encoding parses as a client player.
pub proof fn lemma_client_player_unique(s: Seq<u8>)
    requires
        parse_client_player(s) is Some,
    ensures
        parse_client_player(s).unwrap().0.wf(),
        s == encode_client_player(parse_client_player(s).unwrap().0) + parse_client_player(
            s,
        ).unwrap().1,
{
    reveal(encode_client_player);
    reveal(parse_client_player);
    lemma_player_unique(s);
    let q = parse_player(s).unwrap().0;
    let s1 = parse_player(s).unwrap().1;
    lemma_vec2_unique(s1);
    let s2 = parse_vec2(s1).unwrap().1;
    lemma_flag_unique(s2);
    let s3 = parse_flag(s2).unwrap().1;
    lemma_u32_unique(s3);
    let p = parse_client_player(s).unwrap().0;
    assert(encode_player(p) == encode_player(q)) by {
        reveal(encode_player);
    }
}

/// Parsing the encoding of bare players gives them back.
pub proof fn lemma_players_round_trip(players: Seq<PlayerStateView>, rest: Seq<u8>)
    requires
        forall|i: int|
            0 <= i < players.len() ==> (#[trigger] players[i]).wf() && bare(players[i])
                == players[i],
    ensures
        parse_players(encode_players(players) + rest, players.len()) == Some((players, rest)),
    decreases players.len(),
{
    if players.len() > 0 {
        let tail = players.drop_first();
        let t1 = encode_players(tail) + rest;
        lemma_player_round_trip(players[0], t1);
        lemma_players_round_trip(tail, rest);
        assert(encode_players(players) + rest =~= encode_player(players[0]) + t1);
    }
}

/// Only the encoding of bare, well-formed players parses as players.
pub proof fn lemma_players_unique(s: Seq<u8>, count: nat)
    requires
        parse_players(s, count) is Some,
    ensures
        parse_players(s, count).unwrap().0.len() == count,
        forall|i: int|
            0 <= i < count ==> (#[trigger] parse_players(s, count).unwrap().0[i]).wf() && bare(
                parse_players(s, count).unwrap().0[i],
            ) == parse_players(s, count).unwrap().0[i],
        s == encode_players(parse_players(s, count).unwrap().0) + parse_players(
            s,
            count,
        ).unwrap().1,
    decreases count,
{
    if count > 0 {
        lemma_player_unique(s);
        let p = parse_player(s).unwrap().0;
        let s1 = parse_player(s).unwrap().1;
        lemma_players_unique(s1, (count - 1) as nat);
        let tail = parse_players(s1, (count - 1) as nat).unwrap().0;
        let all = seq![p] + tail;
        assert(all.drop_first() =~= tail);
    }
}

/// Length of the encoding of a list of players.
pub open spec fn players_len(players: Seq<PlayerStateView>) -> nat
    decreases players.len(),
{
    if players.len() == 0 {
        0
    } else {
        18 + encode_utf8(players[0].name).len() + players_len(players.drop_first())
    }
}

pub proof fn lemma_players_len(players: Seq<PlayerStateView>)
    ensures
        encode_players(players).len() == players_len(players),
        players_len(players) >= 18 * players.len(),
    decreases players.len(),
{
    if players.len() > 0 {
        lemma_players_len(players.drop_first());
        lemma_player_round_trip_len(players[0]);
    }
}

/// Encoding one more player appends its encoding.
pub proof fn lemma_encode_players_push(players: Seq<PlayerStateView>, p: PlayerStateView)
    ensures
        encode_players(players.push(p)) == encode_players(players) + encode_player(p),
    decreases players.len(),
{
    if players.len() == 0 {
        let one = players.push(p);
        assert(encode_players(one.drop_first()) =~= Seq::empty());
    } else {
        lemma_encode_players_push(players.drop_first(), p);
        assert(players.push(p).drop_first() =~= players.drop_first().push(p));
    }
}

pub proof fn lemma_command_list_round_trip(commands: Seq<PlayerCommand>, rest: Seq<u8>)
    ensures
        encode_command_list(commands).len() == commands.len(),
        parse_command_list(encode_command_list(commands) + rest, commands.len()) == Some(
            (commands, rest),
        ),
{
}

/// Length of a bundle's datagram.
pub proof fn lemma_commands_len(c: PlayerStateCommandView)
    ensures
        encode_commands(c).len() == 22 + c.commands.len(),
{
    lemma_auto_spec_u16_to_from_le_bytes();
    lemma_auto_spec_u32_to_from_le_bytes();
    lemma_auto_spec_u64_to_from_le_bytes();
}

/// Length of a snapshot's datagram.
pub proof fn lemma_snapshot_len(s: SnapshotView)
    ensures
        encode_snapshot(s).len() == 45 + encode_utf8(s.client_player.name).len() + players_len(
            s.players,
        ),
{
    lemma_auto_spec_u16_to_from_le_bytes();
    lemma_auto_spec_u32_to_from_le_bytes();
    lemma_auto_spec_u64_to_from_le_bytes();
    lemma_players_len(s.players);
    lemma_player_round_trip_len(s.client_player);
}

/// Decoding the datagram of a bundle gives the bundle back.
pub proof fn theorem_commands_round_trip(c: PlayerStateCommandView)
    requires
        commands_encodable(c),
    ensures
        parse_commands(encode_commands(c)) == Some(c),
{
    let s = encode_commands(c);
    let t4 = encode_command_list(c.commands);
    let t3 = spec_u16_to_le_bytes(c.commands.len() as u16) + t4;
    let t2 = spec_u64_to_le_bytes(c.client_timestamp_micros) + t3;
    let t1 = spec_u64_to_le_bytes(c.dt_micros) + t2;
    lemma_u32_round_trip(c.sequence, t1);
    lemma_u64_round_trip(c.dt_micros, t2);
    lemma_u64_round_trip(c.client_timestamp_micros, t3);
    lemma_u16_round_trip(c.commands.len() as u16, t4);
    lemma_command_list_round_trip(c.commands, Seq::empty());
    assert(s =~= spec_u32_to_le_bytes(c.sequence) + t1);
}

/// A byte sequence decodes to a bundle only if it is that bundle's datagram.
pub proof fn theorem_commands_unique(s: Seq<u8>)
    requires
        parse_commands(s) is Some,
    ensures
        commands_encodable(parse_commands(s).unwrap()),
        encode_commands(parse_commands(s).unwrap()) == s,
{
    lemma_u32_unique(s);
    let s1 = parse_u32(s).unwrap().1;
    lemma_u64_unique(s1);
    let s2 = parse_u64(s1).unwrap().1;
    lemma_u64_unique(s2);
    let s3 = parse_u64(s2).unwrap().1;
    lemma_u16_unique(s3);
}

/// Decoding the datagram of a snapshot gives the snapshot back.
pub proof fn theorem_snapshot_round_trip(v: SnapshotView)
    requires
        snapshot_encodable(v),
    ensures
        parse_snapshot(encode_snapshot(v)) == Some(v),
{
    let s = encode_snapshot(v);
    let t4 = encode_players(v.players);
    let t3 = spec_u16_to_le_bytes(v.players.len() as u16) + t4;
    let t2 = encode_client_player(v.client_player) + t3;
    let t1 = spec_u64_to_le_bytes(v.server_timestamp) + t2;
    lemma_players_len(v.players);
    lemma_u32_round_trip(v.sequence, t1);
    lemma_u64_round_trip(v.server_timestamp, t2);
    lemma_client_player_round_trip(v.client_player, t3);
    lemma_u16_round_trip(v.players.len() as u16, t4);
    lemma_players_round_trip(v.players, Seq::empty());
    assert(s =~= spec_u32_to_le_bytes(v.sequence) + t1);
}

/// A byte sequence decodes to a snapshot only if it is that snapshot's
/// datagram.
pub proof fn theorem_snapshot_unique(s: Seq<u8>)
    requires
        parse_snapshot(s) is Some,
    ensures
        snapshot_encodable(parse_snapshot(s).unwrap()),
        encode_snapshot(parse_snapshot(s).unwrap()) == s,
{
    lemma_u32_unique(s);
    let s1 = parse_u32(s).unwrap().1;
    lemma_u64_unique(s1);
    let s2 = parse_u64(s1).unwrap().1;
    lemma_client_player_unique(s2);
    let s3 = parse_client_player(s2).unwrap().1;
    lemma_u16_unique(s3);
    let count = parse_u16(s3).unwrap().0;
    let s4 = parse_u16(s3).unwrap().1;
    lemma_players_unique(s4, count as nat);
}

} // verus!
