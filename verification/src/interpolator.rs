//! Interpolation of the players a client does not control.
//!
//! Between two snapshots another player is drawn on the line from where the
//! older snapshot saw it to where the newer one sees it. This module keeps
//! the two snapshots and says, for each such player, between which two
//! points and how far along; computing the point is the caller's.

use crate::scalar::Vec2;
use crate::state::{
    find_player, has_player, players_view, position_of, roster_wf, GameState, PlayerState,
    PlayerStateView,
};
use vstd::prelude::*;

verus! {

/// How far interpolation has come: the quotient of the two is the blend
/// factor. The span is zero until two snapshots have arrived.
#[derive(Clone, Copy, Debug, PartialEq, Eq, Structural)]
pub struct Progress {
    /// Whole milliseconds since the newer snapshot arrived.
    pub elapsed_millis: u64,
    /// Whole milliseconds between the arrivals of the two snapshots.
    pub span_millis: u64,
}

/// One player to place: on the line from `start` to `end`.
#[derive(Clone, Copy, Debug, PartialEq, Eq, Structural)]
pub struct Lerp {
    pub player_id: u32,
    pub start: Vec2,
    pub end: Vec2,
}

/// What one frame's interpolation consists of.
#[derive(Debug)]
pub struct Interpolation {
    pub progress: Progress,
    pub tasks: Vec<Lerp>,
}

/// Where `players` has the player `id`; the origin if it has none.
pub open spec fn seen_at(players: Seq<PlayerStateView>, id: u32) -> Vec2 {
    if has_player(players, id) {
        players[position_of(players, id)].pos
    } else {
        Vec2::spec_zero()
    }
}

/// The placements of the players of `players` other than `client_player_id`,
/// in order, between where `older` and `newer` have them.
pub open spec fn lerp_tasks(
    players: Seq<PlayerStateView>,
    older: Seq<PlayerStateView>,
    newer: Seq<PlayerStateView>,
    client_player_id: u32,
) -> Seq<Lerp>
    decreases players.len(),
{
    if players.len() == 0 {
        Seq::empty()
    } else if players.last().id == client_player_id {
        lerp_tasks(players.drop_last(), older, newer, client_player_id)
    } else {
        lerp_tasks(players.drop_last(), older, newer, client_player_id).push(
            Lerp {
                player_id: players.last().id,
                start: seen_at(older, players.last().id),
                end: seen_at(newer, players.last().id),
            },
        )
    }
}

/// Time from `earlier` to `later`; zero if `later` is not later.
pub open spec fn since(earlier: u64, later: u64) -> u64 {
    if later >= earlier {
        (later - earlier) as u64
    } else {
        0
    }
}

/// The locally controlled player is never placed, and every other player
/// of the roster is placed exactly once, between where the two snapshots
/// have it.
pub proof fn lemma_lerp_tasks(
    players: Seq<PlayerStateView>,
    older: Seq<PlayerStateView>,
    newer: Seq<PlayerStateView>,
    client_player_id: u32,
)
    requires
        roster_wf(players),
    ensures
        lerp_tasks(players, older, newer, client_player_id).len() <= players.len(),
        forall|j: int|
            0 <= j < lerp_tasks(players, older, newer, client_player_id).len() ==> {
                let task = #[trigger] lerp_tasks(players, older, newer, client_player_id)[j];
                &&& task.player_id != client_player_id
                &&& has_player(players, task.player_id)
                &&& task.start == seen_at(older, task.player_id)
                &&& task.end == seen_at(newer, task.player_id)
            },
        ({
            let tasks = lerp_tasks(players, older, newer, client_player_id);
            forall|i: int, j: int|
                0 <= i < j < tasks.len() ==> (#[trigger] tasks[i]).player_id != (
                #[trigger] tasks[j]).player_id
        }),
        forall|i: int|
            0 <= i < players.len() && (#[trigger] players[i]).id != client_player_id
                ==> exists|j: int|
                0 <= j < lerp_tasks(players, older, newer, client_player_id).len() && (
                #[trigger] lerp_tasks(players, older, newer, client_player_id)[j]).player_id
                    == players[i].id,
    decreases players.len(),
{
    let tasks = lerp_tasks(players, older, newer, client_player_id);
    if players.len() > 0 {
        let init = players.drop_last();
        let last = players.last();
        let prev = lerp_tasks(init, older, newer, client_player_id);
        lemma_lerp_tasks(init, older, newer, client_player_id);
        assert forall|j: int| 0 <= j < tasks.len() implies {
            let task = #[trigger] tasks[j];
            &&& task.player_id != client_player_id
            &&& has_player(players, task.player_id)
            &&& task.start == seen_at(older, task.player_id)
            &&& task.end == seen_at(newer, task.player_id)
        } by {}
        assert forall|i: int|
            0 <= i < players.len() && (#[trigger] players[i]).id != client_player_id implies exists|
            j: int,
        |
            0 <= j < tasks.len() && (#[trigger] tasks[j]).player_id == players[i].id by {
            if i < init.len() {
                let j = choose|j: int|
                    0 <= j < prev.len() && (#[trigger] prev[j]).player_id == init[i].id;
                assert(tasks[j] == prev[j]);
            } else {
                assert(tasks[tasks.len() - 1].player_id == players[i].id);
            }
        }
    }
}

/// The two most recent snapshots of one client, and when the newer came.
#[derive(Debug)]
pub struct Interpolator {
    old_server_state: Vec<PlayerState>,
    new_server_state: Vec<PlayerState>,
    received_new_state_at: u64,
    interpolation_time: u64,
    pub active: bool,
}

/// Mathematical content of an [`Interpolator`].
pub struct InterpolatorView {
    /// The players of the older snapshot.
    pub older: Seq<PlayerStateView>,
    /// The players of the newer snapshot.
    pub newer: Seq<PlayerStateView>,
    /// When the newer snapshot arrived, in microseconds.
    pub received_new_state_at: u64,
    /// Time between the arrivals of the two snapshots, in microseconds.
    pub interpolation_time: u64,
    pub active: bool,
}

impl View for Interpolator {
    type V = InterpolatorView;

    closed spec fn view(&self) -> InterpolatorView {
        InterpolatorView {
            older: players_view(self.old_server_state@),
            newer: players_view(self.new_server_state@),
            received_new_state_at: self.received_new_state_at,
            interpolation_time: self.interpolation_time,
            active: self.active,
        }
    }
}

impl InterpolatorView {
    /// How far interpolation has come at `now_micros`.
    pub open spec fn progress(self, now_micros: u64) -> Progress {
        Progress {
            elapsed_millis: since(self.received_new_state_at, now_micros) / 1000,
            span_millis: self.interpolation_time / 1000,
        }
    }
}

fn clone_players(players: &Vec<PlayerState>) -> (copy: Vec<PlayerState>)
    ensures
        players_view(copy@) == players_view(players@),
{
    let mut copy: Vec<PlayerState> = Vec::new();
    let mut i: usize = 0;
    while i < players.len()
        invariant
            i <= players.len(),
            players_view(copy@) == players_view(players@).take(i as int),
        decreases players.len() - i,
    {
        let ghost before = players_view(copy@);
        copy.push(players[i].clone());
        i += 1;
        assert(players_view(copy@) =~= before.push(players[i - 1]@));
    }
    copy
}

/// Where `players` has the player `id`; the origin if it has none.
fn position_in(players: &Vec<PlayerState>, id: u32) -> (at: Vec2)
    requires
        roster_wf(players_view(players@)),
    ensures
        at == seen_at(players_view(players@), id),
{
    match find_player(players, id) {
        Some(i) => {
            proof {
                let roster = players_view(players@);
                assert(roster[i as int].id == id);
            }
            players[i].pos
        },
        None => Vec2::zero(),
    }
}

impl Interpolator {
    /// Whether both snapshots are well-formed rosters; every interpolator
    /// this module hands out is.
    pub open spec fn wf(&self) -> bool {
        roster_wf(self@.older) && roster_wf(self@.newer)
    }

    /// An interpolator that has seen `game_state` twice, at `now_micros`.
    pub fn new(game_state: &GameState, now_micros: u64) -> (it: Interpolator)
        requires
            roster_wf(game_state@.players),
        ensures
            it.wf(),
            it@ == (InterpolatorView {
                older: game_state@.players,
                newer: game_state@.players,
                received_new_state_at: now_micros,
                interpolation_time: 0,
                active: true,
            }),
    {
        Interpolator {
            old_server_state: clone_players(&game_state.players),
            new_server_state: clone_players(&game_state.players),
            received_new_state_at: now_micros,
            interpolation_time: 0,
            active: true,
        }
    }

    /// Takes in the players of a snapshot that arrived at `now_micros`: the
    /// newer snapshot becomes the older one, and the time between the two
    /// arrivals becomes the span of interpolation.
    pub fn set_new_state(&mut self, new_state: Vec<PlayerState>, now_micros: u64)
        requires
            old(self).wf(),
            roster_wf(players_view(new_state@)),
        ensures
            final(self).wf(),
            final(self)@ == (InterpolatorView {
                older: old(self)@.newer,
                newer: players_view(new_state@),
                received_new_state_at: now_micros,
                interpolation_time: since(old(self)@.received_new_state_at, now_micros),
                active: old(self)@.active,
            }),
    {
        let mut incoming = new_state;
        std::mem::swap(&mut self.new_server_state, &mut incoming);
        self.old_server_state = incoming;
        self.interpolation_time = if now_micros >= self.received_new_state_at {
            now_micros - self.received_new_state_at
        } else {
            0
        };
        self.received_new_state_at = now_micros;
    }

    /// How far interpolation has come at `now_micros`.
    pub fn update_t(&self, now_micros: u64) -> (progress: Progress)
        ensures
            progress == self@.progress(now_micros),
    {
        let elapsed: u64 = if now_micros >= self.received_new_state_at {
            now_micros - self.received_new_state_at
        } else {
            0
        };
        Progress { elapsed_millis: elapsed / 1000, span_millis: self.interpolation_time / 1000 }
    }

    /// What to place at `now_micros`: every player of `game_state` but
    /// `client_player_id`, between where the older and the newer snapshot
    /// have it; a snapshot that lacks the player has it at the origin.
    /// Nothing while interpolation is off.
    pub fn interpolate(&self, game_state: &GameState, client_player_id: u32, now_micros: u64) -> (r:
        Option<Interpolation>)
        requires
            self.wf(),
        ensures
            r is Some <==> self@.active,
            r is Some ==> r.unwrap().progress == self@.progress(now_micros) && r.unwrap().tasks@
                == lerp_tasks(game_state@.players, self@.older, self@.newer, client_player_id),
    {
        if !self.active {
            return None;
        }
        let progress = self.update_t(now_micros);
        let ghost players = game_state@.players;
        let mut tasks: Vec<Lerp> = Vec::new();
        let mut i: usize = 0;
        while i < game_state.players.len()
            invariant
                i <= game_state.players.len(),
                self.wf(),
                players == players_view(game_state.players@),
                tasks@ == lerp_tasks(
                    players.take(i as int),
                    self@.older,
                    self@.newer,
                    client_player_id,
                ),
            decreases game_state.players.len() - i,
        {
            proof {
                assert(players.take(i + 1).drop_last() =~= players.take(i as int));
            }
            let id: u32 = game_state.players[i].id;
            if id != client_player_id {
                tasks.push(
                    Lerp {
                        player_id: id,
                        start: position_in(&self.old_server_state, id),
                        end: position_in(&self.new_server_state, id),
                    },
                );
            }
            i += 1;
        }
        assert(players.take(i as int) =~= players);
        Some(Interpolation { progress, tasks })
    }
}

} // verus!
