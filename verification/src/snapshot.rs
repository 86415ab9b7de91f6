//! What a recipient is shown of the world, and what a client makes of it.

use crate::state::{
    find_player, has_player, players_view, position_of, roster_wf, GameState, GameStateView,
    PlayerState, PlayerStateView,
};
use crate::wire::{bare, SnapshotView};
use vstd::prelude::*;

verus! {

/// One decoded snapshot datagram.
#[derive(Debug)]
pub struct Snapshot {
    /// Every player but the recipient; velocity, ground contact and jump
    /// timer are at rest.
    pub players: Vec<PlayerState>,
    /// The recipient's own player in full.
    pub client_player: PlayerState,
    /// Highest sequence number of the recipient's that the tick folded in.
    pub sequence: u32,
    /// Microseconds since the Unix epoch at which the snapshot was made.
    pub server_timestamp: u64,
}

impl View for Snapshot {
    type V = SnapshotView;

    open spec fn view(&self) -> SnapshotView {
        SnapshotView {
            players: players_view(self.players@),
            client_player: self.client_player@,
            sequence: self.sequence,
            server_timestamp: self.server_timestamp,
        }
    }
}

/// The players of `players` other than `recipient`, bare, in order.
pub open spec fn others(players: Seq<PlayerStateView>, recipient: u32) -> Seq<PlayerStateView>
    decreases players.len(),
{
    if players.len() == 0 {
        Seq::empty()
    } else if players.last().id == recipient {
        others(players.drop_last(), recipient)
    } else {
        others(players.drop_last(), recipient).push(bare(players.last()))
    }
}

/// What `recipient` is shown of `players`: its own player in full, and
/// every other player bare.
pub open spec fn snapshot_for(
    players: Seq<PlayerStateView>,
    recipient: u32,
    sequence: u32,
    server_timestamp: u64,
) -> SnapshotView {
    SnapshotView {
        players: others(players, recipient),
        client_player: players[position_of(players, recipient)],
        sequence,
        server_timestamp,
    }
}

/// `others` keeps exactly the players that are not the recipient, each once.
pub proof fn lemma_others(players: Seq<PlayerStateView>, recipient: u32)
    requires
        roster_wf(players),
    ensures
        roster_wf(others(players, recipient)),
        others(players, recipient).len() <= players.len(),
        forall|j: int|
            0 <= j < others(players, recipient).len() ==> (#[trigger] others(
                players,
                recipient,
            )[j]).id != recipient && bare(others(players, recipient)[j]) == others(
                players,
                recipient,
            )[j],
        forall|id: u32|
            #![trigger has_player(others(players, recipient), id)]
            #![trigger has_player(players, id)]
            has_player(others(players, recipient), id) <==> id != recipient && has_player(
                players,
                id,
            ),
    decreases players.len(),
{
    let out = others(players, recipient);
    if players.len() > 0 {
        let init = players.drop_last();
        let last = players.last();
        let prev = others(init, recipient);
        lemma_others(init, recipient);
        assert(!has_player(init, last.id));
        assert forall|id: u32| has_player(out, id) <==> id != recipient && has_player(
            players,
            id,
        ) by {
            if has_player(out, id) {
                let j = choose|j: int| 0 <= j < out.len() && (#[trigger] out[j]).id == id;
                if j < prev.len() {
                    assert(has_player(prev, id));
                }
            }
            if id != recipient && has_player(players, id) {
                let i = choose|i: int| 0 <= i < players.len() && (#[trigger] players[i]).id == id;
                if i < init.len() {
                    assert(init[i].id == id);
                    assert(has_player(init, id));
                    let j = choose|j: int| 0 <= j < prev.len() && (#[trigger] prev[j]).id == id;
                    assert(out[j].id == id);
                } else {
                    assert(out[out.len() - 1].id == id);
                }
            }
        }
    }
}

/// What a recipient is shown names the recipient as its own player, shows
/// every other player exactly once, and does not show the recipient among
/// the others.
pub proof fn theorem_snapshot_for(
    players: Seq<PlayerStateView>,
    recipient: u32,
    sequence: u32,
    server_timestamp: u64,
)
    requires
        roster_wf(players),
        has_player(players, recipient),
    ensures
        ({
            let shown = snapshot_for(players, recipient, sequence, server_timestamp);
            &&& shown.client_player.id == recipient
            &&& !has_player(shown.players, recipient)
            &&& forall|id: u32|
                id != recipient && has_player(players, id) ==> #[trigger] has_player(
                    shown.players,
                    id,
                )
            &&& forall|i: int, j: int|
                0 <= i < j < shown.players.len() ==> (#[trigger] shown.players[i]).id != (
                #[trigger] shown.players[j]).id
        }),
{
    lemma_others(players, recipient);
}

/// `players` with `p` in the place of the player of the same identity, or
/// at the end if there is none.
pub open spec fn upserted(players: Seq<PlayerStateView>, p: PlayerStateView) -> Seq<
    PlayerStateView,
> {
    if has_player(players, p.id) {
        players.update(position_of(players, p.id), p)
    } else {
        players.push(p)
    }
}

/// The roster that results from taking `incoming` one by one.
pub open spec fn upserted_all(players: Seq<PlayerStateView>, incoming: Seq<PlayerStateView>)
    -> Seq<PlayerStateView>
    decreases incoming.len(),
{
    if incoming.len() == 0 {
        players
    } else {
        upserted(upserted_all(players, incoming.drop_last()), incoming.last())
    }
}

/// The roster a client holds after a snapshot: the snapshot's other
/// players, then the client's own player.
pub open spec fn roster_after(s: SnapshotView) -> Seq<PlayerStateView> {
    upserted(upserted_all(Seq::empty(), s.players), s.client_player)
}

/// Taking a well-formed player into a well-formed roster keeps it so.
pub proof fn lemma_upserted(players: Seq<PlayerStateView>, p: PlayerStateView)
    requires
        roster_wf(players),
        p.wf(),
    ensures
        roster_wf(upserted(players, p)),
        has_player(upserted(players, p), p.id),
        forall|id: u32|
            #![trigger has_player(upserted(players, p), id)]
            #![trigger has_player(players, id)]
            has_player(upserted(players, p), id) <==> id == p.id || has_player(players, id),
{
    let out = upserted(players, p);
    if has_player(players, p.id) {
        assert forall|id: u32| has_player(out, id) <==> id == p.id || has_player(players, id) by {
            if has_player(players, id) {
                let j = choose|j: int| 0 <= j < players.len() && (#[trigger] players[j]).id == id;
                assert(out[j].id == id);
            }
        }
    } else {
        assert(out[out.len() - 1].id == p.id);
        assert forall|id: u32| has_player(out, id) <==> id == p.id || has_player(players, id) by {
            if has_player(players, id) {
                let j = choose|j: int| 0 <= j < players.len() && (#[trigger] players[j]).id == id;
                assert(out[j].id == id);
            }
        }
    }
}

/// Puts `p` in the place of the player of the same identity, or at the end
/// if there is none.
pub fn upsert(players: &mut Vec<PlayerState>, p: PlayerState)
    requires
        roster_wf(players_view(old(players)@)),
        p@.wf(),
    ensures
        roster_wf(players_view(final(players)@)),
        players_view(final(players)@) == upserted(players_view(old(players)@), p@),
{
    let ghost before = players_view(players@);
    match find_player(players, p.id) {
        Some(i) => {
            proof {
                assert(before[i as int].id == p.id);
            }
            players[i] = p;
            assert(players_view(players@) =~= before.update(i as int, p@));
        },
        None => {
            players.push(p);
            assert(players_view(players@) =~= before.push(p@));
        },
    }
}

impl Snapshot {
    /// Whether every player is well formed; in every decoded snapshot it is.
    pub open spec fn wf(&self) -> bool {
        &&& self@.client_player.wf()
        &&& forall|i: int| 0 <= i < self@.players.len() ==> (#[trigger] self@.players[i]).wf()
    }

    /// The other players of this snapshot as a roster: in order, and where
    /// an identity occurs more than once the later occurrence stands.
    pub fn roster(&self) -> (players: Vec<PlayerState>)
        requires
            self.wf(),
        ensures
            roster_wf(players_view(players@)),
            players_view(players@) == upserted_all(Seq::empty(), self@.players),
    {
        let mut players: Vec<PlayerState> = Vec::new();
        let ghost incoming = self@.players;
        let mut i: usize = 0;
        while i < self.players.len()
            invariant
                i <= self.players.len(),
                incoming == players_view(self.players@),
                forall|i: int| 0 <= i < incoming.len() ==> (#[trigger] incoming[i]).wf(),
                roster_wf(players_view(players@)),
                players_view(players@) == upserted_all(Seq::empty(), incoming.take(i as int)),
            decreases self.players.len() - i,
        {
            let p = self.players[i].clone();
            assert(p@ == incoming[i as int]);
            upsert(&mut players, p);
            proof {
                assert(incoming.take(i + 1).drop_last() =~= incoming.take(i as int));
            }
            i += 1;
        }
        assert(incoming.take(i as int) =~= incoming);
        players
    }
}

impl GameState {
    /// Replaces the players by those of `snapshot`: its other players as a
    /// roster, then the recipient's own player. Scene and timing stay.
    pub fn apply_snapshot(&mut self, snapshot: &Snapshot)
        requires
            old(self).scheduled_commands.wf(),
            snapshot.wf(),
        ensures
            final(self).wf(),
            final(self)@ == (GameStateView { players: roster_after(snapshot@), ..old(self)@ }),
            has_player(final(self)@.players, snapshot.client_player.id),
            final(self).scheduled_commands == old(self).scheduled_commands,
    {
        let mut players = snapshot.roster();
        proof {
            lemma_upserted(players_view(players@), snapshot.client_player@);
        }
        upsert(&mut players, snapshot.client_player.clone());
        self.players = players;
    }
}

} // verus!
