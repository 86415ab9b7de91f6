//! The authority's bookkeeping: who is who, what came in, what goes out.
//!
//! Sockets, threads and clocks are the embedding program's; it hands in
//! datagrams and clock readings and sends what [`Server::broadcast_state`]
//! returns.

use crate::command::{CommandContent, CommandContentView, PlayerStateCommand};
use crate::identity::{assigned, find_peer, known, lemma_assigned, table_wf, Binding, PeerAddr};
use crate::mapper::WireError;
use crate::mutate::{batch_view, TickPlan};
use crate::snapshot::snapshot_for;
use crate::state::{find_player, has_player, roster_wf, GameState};
use crate::wire::{encode_snapshot, parse_commands, MAX_DATAGRAM};
use vstd::prelude::*;

verus! {

/// Length of one tick, in microseconds.
pub const TICK_DURATION_MICROS: u64 = 16000;

/// The time a datagram stamped `timestamp_micros` by its sender was under
/// way when it arrives at `now_micros`; zero where the sender's clock is
/// ahead.
pub open spec fn delay_of(now_micros: u64, timestamp_micros: u64) -> u64 {
    if now_micros >= timestamp_micros {
        (now_micros - timestamp_micros) as u64
    } else {
        0
    }
}

/// The highest sequence number among the bundles of `player_id` in
/// `batch`, 0 if it has none there.
pub open spec fn acked(batch: Seq<CommandContentView>, player_id: u32) -> u32
    decreases batch.len(),
{
    if batch.len() == 0 {
        0
    } else {
        let before = acked(batch.drop_last(), player_id);
        let last = batch.last();
        if last.player_id == player_id && last.player_state_command.sequence > before {
            last.player_state_command.sequence
        } else {
            before
        }
    }
}

/// The highest sequence number among the bundles of `player_id` in
/// `batch`, 0 if it has none there.
pub fn acked_sequence(batch: &[CommandContent], player_id: u32) -> (sequence: u32)
    ensures
        sequence == acked(batch_view(batch@), player_id),
{
    let ghost all = batch_view(batch@);
    let mut sequence: u32 = 0;
    let mut i: usize = 0;
    while i < batch.len()
        invariant
            i <= batch.len(),
            all == batch_view(batch@),
            sequence == acked(all.take(i as int), player_id),
        decreases batch.len() - i,
    {
        proof {
            assert(all.take(i + 1).drop_last() =~= all.take(i as int));
        }
        if batch[i].player_id == player_id && batch[i].player_state_command.sequence > sequence {
            sequence = batch[i].player_state_command.sequence;
        }
        i += 1;
    }
    assert(all.take(i as int) =~= all);
    sequence
}

/// How long to sleep after a tick that took `elapsed_micros`: the rest of
/// the tick, or nothing if the tick overran.
pub fn tick_sleep_micros(elapsed_micros: u64) -> (sleep: Option<u64>)
    ensures
        sleep == if elapsed_micros <= TICK_DURATION_MICROS {
            Some((TICK_DURATION_MICROS - elapsed_micros) as u64)
        } else {
            None
        },
{
    if elapsed_micros <= TICK_DURATION_MICROS {
        Some(TICK_DURATION_MICROS - elapsed_micros)
    } else {
        None
    }
}

/// What is to be sent to one peer after a tick.
#[derive(Debug)]
pub struct Outgoing {
    pub to: PeerAddr,
    pub player_id: u32,
    /// The snapshot datagram; nothing if the peer has no player yet or its
    /// snapshot does not fit a datagram.
    pub bytes: Option<Vec<u8>>,
}

/// Mathematical content of an [`Outgoing`].
pub struct OutgoingView {
    pub to: PeerAddr,
    pub player_id: u32,
    pub bytes: Option<Seq<u8>>,
}

impl View for Outgoing {
    type V = OutgoingView;

    open spec fn view(&self) -> OutgoingView {
        OutgoingView {
            to: self.to,
            player_id: self.player_id,
            bytes: match self.bytes {
                Some(b) => Some(b@),
                None => None,
            },
        }
    }
}

/// What `peer` is sent of `state` after a tick that folded in `batch`.
pub open spec fn outgoing_for(
    state: crate::state::GameStateView,
    batch: Seq<CommandContentView>,
    server_timestamp: u64,
    peer: Binding,
) -> OutgoingView {
    let shown = snapshot_for(
        state.players,
        peer.id,
        acked(batch, peer.id),
        server_timestamp,
    );
    OutgoingView {
        to: peer.addr,
        player_id: peer.id,
        bytes: if has_player(state.players, peer.id) && encode_snapshot(shown).len()
            <= MAX_DATAGRAM {
            Some(encode_snapshot(shown))
        } else {
            None
        },
    }
}

/// The identity table of the authority.
#[derive(Debug)]
pub struct Server {
    ip_to_player_id: Vec<Binding>,
}

impl View for Server {
    type V = Seq<Binding>;

    closed spec fn view(&self) -> Seq<Binding> {
        self.ip_to_player_id@
    }
}

impl Server {
    /// Whether no address occurs twice and identities were given in order
    /// from 1; every server this module hands out is.
    pub open spec fn wf(&self) -> bool {
        table_wf(self@)
    }

    /// A server that knows no peer.
    pub fn new() -> (server: Server)
        ensures
            server.wf(),
            server@ == Seq::<Binding>::empty(),
    {
        Server { ip_to_player_id: Vec::new() }
    }

    /// Number of known peers.
    pub fn peer_count(&self) -> (n: usize)
        ensures
            n == self@.len(),
    {
        self.ip_to_player_id.len()
    }

    /// The identity of the peer at `client_addr`: the one it was given at
    /// first contact, or, if this is the first contact, one more than the
    /// highest given so far.
    pub fn get_or_add_player_id(&mut self, client_addr: &PeerAddr) -> (id: u32)
        requires
            old(self).wf(),
            known(old(self)@, *client_addr) || old(self)@.len() < u32::MAX,
        ensures
            final(self).wf(),
            (final(self)@, id as int) == assigned(old(self)@, *client_addr),
            known(final(self)@, *client_addr),
            !known(old(self)@, *client_addr) ==> id == old(self)@.len() + 1,
            id >= 1,
    {
        proof {
            lemma_assigned(self@, *client_addr);
        }
        match find_peer(&self.ip_to_player_id, client_addr) {
            Some(i) => {
                self.ip_to_player_id[i].id
            },
            None => {
                let id: u32 = (self.ip_to_player_id.len() + 1) as u32;
                self.ip_to_player_id.push(Binding { addr: *client_addr, id });
                id
            },
        }
    }

    /// Every known peer with its identity, in the order of first contact.
    pub fn read_ip_id(&self) -> (peers: Vec<Binding>)
        ensures
            peers@ == self@,
    {
        let mut peers: Vec<Binding> = Vec::new();
        let mut i: usize = 0;
        while i < self.ip_to_player_id.len()
            invariant
                i <= self.ip_to_player_id.len(),
                peers@ == self.ip_to_player_id@.take(i as int),
            decreases self.ip_to_player_id.len() - i,
        {
            peers.push(self.ip_to_player_id[i]);
            i += 1;
        }
        peers
    }

    /// Takes in one datagram received from `src_addr` at `now_micros`.
    ///
    /// A datagram that is no input bundle is refused and changes nothing.
    /// Otherwise the peer is identified (and given an identity at first
    /// contact), and the bundle is handed back with the peer's identity and
    /// the measured delay, unless it holds no input: such a bundle is dropped.
    pub fn handle_packet(&mut self, packet: &[u8], src_addr: &PeerAddr, now_micros: u64) -> (r:
        Result<Option<CommandContent>, WireError>)
        requires
            old(self).wf(),
            known(old(self)@, *src_addr) || old(self)@.len() < u32::MAX,
        ensures
            final(self).wf(),
            match r {
                Err(e) => {
                    &&& e == WireError::Malformed
                    &&& parse_commands(packet@) is None
                    &&& final(self)@ == old(self)@
                },
                Ok(forwarded) => {
                    &&& parse_commands(packet@) is Some
                    &&& final(self)@ == assigned(old(self)@, *src_addr).0
                    &&& forwarded is None <==> parse_commands(packet@).unwrap().commands.len() == 0
                    &&& forwarded is Some ==> forwarded.unwrap()@ == (CommandContentView {
                        player_id: assigned(old(self)@, *src_addr).1 as u32,
                        player_state_command: parse_commands(packet@).unwrap(),
                        client_delay_micros: delay_of(
                            now_micros,
                            parse_commands(packet@).unwrap().client_timestamp_micros,
                        ),
                    })
                },
            },
    {
        let player_commands = match PlayerStateCommand::deserialize(packet) {
            Ok(c) => c,
            Err(e) => {
                return Err(e);
            },
        };
        let player_id = self.get_or_add_player_id(src_addr);
        let client_delay_micros: u64 = if now_micros >= player_commands.client_timestamp_micros {
            now_micros - player_commands.client_timestamp_micros
        } else {
            0
        };
        if player_commands.commands.len() == 0 {
            Ok(None)
        } else {
            Ok(
                Some(
                    CommandContent {
                        player_id,
                        player_state_command: player_commands,
                        client_delay_micros,
                    },
                ),
            )
        }
    }

    /// Advances the world by one tick.
    pub fn tick(
        &self,
        game_state: &mut GameState,
        commands: &[CommandContent],
        dt_micros: u64,
        now_micros: u64,
    ) -> (plan: TickPlan)
        requires
            old(game_state).scheduled_commands.wf(),
            old(game_state).cached_dt_micros + dt_micros <= now_micros,
            forall|i: int| 0 <= i < commands.len() ==> (#[trigger] commands[i])@.schedulable(),
        ensures
            final(game_state).scheduled_commands.wf(),
            plan@ == crate::mutate::tick_plan(
                crate::mutate::insert_all(
                    old(game_state)@.scheduled_commands,
                    crate::mutate::batch_scheduled(batch_view(commands@)),
                ),
                now_micros as int,
                old(game_state).cached_dt_micros + dt_micros,
                None,
            ),
            final(game_state)@ == (crate::state::GameStateView {
                cached_dt_micros: ((old(game_state).cached_dt_micros + dt_micros) % (
                crate::mutate::FIXED_DT_MICROS as int)) as u64,
                scheduled_commands: Seq::empty(),
                ..old(game_state)@
            }),
            final(game_state).players == old(game_state).players,
    {
        game_state.mutate(commands, dt_micros, None, now_micros)
    }

    /// What to send after a tick: for every known peer, in the order of
    /// first contact, the world as that peer is shown it, with the highest
    /// of its sequence numbers that `batch` held.
    pub fn broadcast_state(
        &self,
        game_state: &GameState,
        batch: &[CommandContent],
        server_timestamp: u64,
    ) -> (out: Vec<Outgoing>)
        requires
            roster_wf(game_state@.players),
        ensures
            out@.len() == self@.len(),
            forall|i: int|
                0 <= i < self@.len() ==> (#[trigger] out@[i])@ == outgoing_for(
                    game_state@,
                    batch_view(batch@),
                    server_timestamp,
                    self@[i],
                ),
    {
        let mut out: Vec<Outgoing> = Vec::new();
        let mut i: usize = 0;
        while i < self.ip_to_player_id.len()
            invariant
                i <= self.ip_to_player_id.len(),
                roster_wf(game_state@.players),
                out@.len() == i,
                forall|j: int|
                    0 <= j < i ==> (#[trigger] out@[j])@ == outgoing_for(
                        game_state@,
                        batch_view(batch@),
                        server_timestamp,
                        self@[j],
                    ),
            decreases self.ip_to_player_id.len() - i,
        {
            let peer = self.ip_to_player_id[i];
            let sequence = acked_sequence(batch, peer.id);
            let bytes = match find_player(&game_state.players, peer.id) {
                Some(_) => match game_state.serialize(peer.id, sequence, server_timestamp) {
                    Ok(bytes) => Some(bytes),
                    Err(_) => None,
                },
                None => None,
            };
            out.push(Outgoing { to: peer.addr, player_id: peer.id, bytes });
            i += 1;
        }
        out
    }
}

} // verus!
