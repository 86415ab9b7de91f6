//! The replicated world: players and the scene they move in.

use crate::command::{PlayerCommand, ScheduledCommand};
use crate::queue::CommandQueue;
use crate::scalar::{Scalar, Vec2};
use vstd::prelude::*;
use vstd::utf8::{encode_utf8, is_ascii_chars_encode_utf8};

verus! {

/// Longest display name, in bytes of UTF-8.
pub const MAX_NAME_BYTES: usize = 64;

/// Bit pattern of the edge length of a newly created player, 16 world units.
pub const DEFAULT_SIZE_BITS: u32 = 0x4180_0000;

/// Bit pattern of the time a player has to wait between two jumps, 0.3
/// seconds.
pub const JUMP_CD_BITS: u32 = 0x3e99_999a;

/// Colour tag of a player.
#[derive(Clone, Copy, Debug, PartialEq, Eq, Structural)]
pub enum Color {
    Red,
    Green,
    Blue,
}

/// Everything the simulation knows of one player.
#[derive(Debug)]
pub struct PlayerState {
    pub id: u32,
    pub name: String,
    pub pos: Vec2,
    pub vel: Vec2,
    pub grounded: bool,
    /// Seconds since the last jump.
    pub jump_timer: Scalar,
    pub color: Color,
    /// Edge length of the player's square.
    pub size: Scalar,
}

/// Mathematical content of a [`PlayerState`].
pub struct PlayerStateView {
    pub id: u32,
    pub name: Seq<char>,
    pub pos: Vec2,
    pub vel: Vec2,
    pub grounded: bool,
    pub jump_timer: Scalar,
    pub color: Color,
    pub size: Scalar,
}

impl PlayerStateView {
    /// Whether the display name fits its limit and the size is greater
    /// than zero.
    pub open spec fn wf(self) -> bool {
        &&& encode_utf8(self.name).len() <= MAX_NAME_BYTES
        &&& self.size.spec_is_positive()
    }

    /// A player as it is created: at rest at `spawn`, named "player".
    pub open spec fn spawned(id: u32, spawn: SpawnPoint) -> PlayerStateView {
        PlayerStateView {
            id,
            name: "player"@,
            pos: Vec2 { x: spawn.x, y: spawn.y },
            vel: Vec2::spec_zero(),
            grounded: false,
            jump_timer: Scalar::spec_zero(),
            color: Color::Red,
            size: Scalar { bits: DEFAULT_SIZE_BITS },
        }
    }

    /// Whether a jump starts now: the player stands on something and its
    /// last jump is longer ago than the waiting time.
    pub open spec fn can_jump(self) -> bool {
        self.grounded && self.jump_timer.spec_is_above(Scalar { bits: JUMP_CD_BITS })
    }

    /// The player after `command`, as far as the input does not touch its
    /// velocity: a jump that starts resets the jump timer.
    pub open spec fn after_input(self, command: PlayerCommand) -> PlayerStateView {
        if command == PlayerCommand::Jump && self.can_jump() {
            PlayerStateView { jump_timer: Scalar::spec_zero(), ..self }
        } else {
            self
        }
    }

    /// A created player is well formed.
    pub proof fn lemma_spawned_wf(id: u32, spawn: SpawnPoint)
        ensures
            Self::spawned(id, spawn).wf(),
            Self::spawned(id, spawn).id == id,
    {
        reveal_strlit("player");
        is_ascii_chars_encode_utf8("player"@);
    }
}

impl View for PlayerState {
    type V = PlayerStateView;

    open spec fn view(&self) -> PlayerStateView {
        PlayerStateView {
            id: self.id,
            name: self.name@,
            pos: self.pos,
            vel: self.vel,
            grounded: self.grounded,
            jump_timer: self.jump_timer,
            color: self.color,
            size: self.size,
        }
    }
}

impl Clone for PlayerState {
    fn clone(&self) -> (r: Self)
        ensures
            r@ == self@,
    {
        PlayerState {
            id: self.id,
            name: self.name.clone(),
            pos: self.pos,
            vel: self.vel,
            grounded: self.grounded,
            jump_timer: self.jump_timer,
            color: self.color,
            size: self.size,
        }
    }
}

impl PlayerState {
    /// Whether a jump starts now.
    pub fn can_jump(&self) -> (ready: bool)
        ensures
            ready == self@.can_jump(),
    {
        self.grounded && self.jump_timer.is_above(Scalar::from_bits(JUMP_CD_BITS))
    }

    /// A new player at rest at the spawn point.
    pub fn new(id: u32, spawn_point: &SpawnPoint) -> (p: PlayerState)
        ensures
            p@ == PlayerStateView::spawned(id, *spawn_point),
            p@.wf(),
    {
        proof {
            PlayerStateView::lemma_spawned_wf(id, *spawn_point);
        }
        PlayerState {
            id,
            name: "player".to_owned(),
            pos: Vec2::new(spawn_point.x, spawn_point.y),
            vel: Vec2::zero(),
            grounded: false,
            jump_timer: Scalar::zero(),
            color: Color::Red,
            size: Scalar::from_bits(DEFAULT_SIZE_BITS),
        }
    }
}

/// An axis-aligned rectangle of the scene.
#[derive(Clone, Copy, Debug, PartialEq, Eq, Structural)]
pub struct SceneObject {
    pub x: Scalar,
    pub y: Scalar,
    pub w: Scalar,
    pub h: Scalar,
}

/// Where new players appear, and where a round restarts.
#[derive(Clone, Copy, Debug, PartialEq, Eq, Structural)]
pub struct SpawnPoint {
    pub x: Scalar,
    pub y: Scalar,
}

/// The contents of a sequence of players.
pub open spec fn players_view(players: Seq<PlayerState>) -> Seq<PlayerStateView> {
    players.map_values(|p: PlayerState| p@)
}

/// Whether every player is well formed and no identity occurs twice.
pub open spec fn roster_wf(players: Seq<PlayerStateView>) -> bool {
    &&& forall|i: int| 0 <= i < players.len() ==> (#[trigger] players[i]).wf()
    &&& forall|i: int, j: int|
        0 <= i < j < players.len() ==> (#[trigger] players[i]).id != (#[trigger] players[j]).id
}

/// Whether some player of `players` has identity `id`.
pub open spec fn has_player(players: Seq<PlayerStateView>, id: u32) -> bool {
    exists|i: int| 0 <= i < players.len() && (#[trigger] players[i]).id == id
}

/// Position of the player with identity `id`, where there is one.
pub open spec fn position_of(players: Seq<PlayerStateView>, id: u32) -> int {
    choose|i: int| 0 <= i < players.len() && (#[trigger] players[i]).id == id
}

/// Looks a player up by identity.
pub fn find_player(players: &Vec<PlayerState>, id: u32) -> (found: Option<usize>)
    ensures
        match found {
            Some(i) => i < players.len() && players[i as int].id == id && forall|j: int|
                0 <= j < i ==> (#[trigger] players[j]).id != id,
            None => !has_player(players_view(players@), id),
        },
        found is Some <==> has_player(players_view(players@), id),
{
    let mut i: usize = 0;
    while i < players.len()
        invariant
            i <= players.len(),
            forall|j: int| 0 <= j < i ==> (#[trigger] players[j]).id != id,
        decreases players.len() - i,
    {
        if players[i].id == id {
            assert(players_view(players@)[i as int].id == id);
            return Some(i);
        }
        i += 1;
    }
    None
}

/// Position of the player with identity `id`, which `players` has.
pub fn index_of_player(players: &Vec<PlayerState>, id: u32) -> (index: usize)
    requires
        has_player(players_view(players@), id),
    ensures
        index < players.len(),
        players[index as int].id == id,
        forall|j: int| 0 <= j < index ==> (#[trigger] players[j]).id != id,
{
    let ghost roster = players_view(players@);
    let ghost witness = choose|k: int| 0 <= k < roster.len() && (#[trigger] roster[k]).id == id;
    let mut index: usize = 0;
    while players[index].id != id
        invariant
            0 <= witness < players.len(),
            players[witness].id == id,
            index <= witness,
            forall|j: int| 0 <= j < index ==> (#[trigger] players[j]).id != id,
        decreases players.len() - index,
    {
        index += 1;
    }
    index
}

/// In a roster an identity has one position only.
pub proof fn lemma_position_of(players: Seq<PlayerStateView>, id: u32, i: int)
    requires
        roster_wf(players),
        0 <= i < players.len(),
        players[i].id == id,
    ensures
        has_player(players, id),
        position_of(players, id) == i,
{
}

/// Whether `players` is a roster: every name within its limit, every size
/// greater than zero, and no identity twice.
pub fn check_roster(players: &Vec<PlayerState>) -> (ok: bool)
    ensures
        ok == roster_wf(players_view(players@)),
{
    let ghost roster = players_view(players@);
    let mut i: usize = 0;
    while i < players.len()
        invariant
            i <= players.len(),
            roster == players_view(players@),
            forall|a: int| 0 <= a < i ==> (#[trigger] roster[a]).wf(),
            forall|a: int, b: int|
                0 <= a < b < i ==> (#[trigger] roster[a]).id != (#[trigger] roster[b]).id,
        decreases players.len() - i,
    {
        if players[i].name.as_str().as_bytes().len() > MAX_NAME_BYTES
            || !players[i].size.is_positive() {
            return false;
        }
        let mut j: usize = 0;
        while j < i
            invariant
                j <= i < players.len(),
                roster == players_view(players@),
                roster[i as int].wf(),
                forall|a: int| 0 <= a < j ==> (#[trigger] roster[a]).id != roster[i as int].id,
            decreases i - j,
        {
            assert(roster[j as int] == players[j as int]@);
            if players[j].id == players[i].id {
                return false;
            }
            j += 1;
        }
        i += 1;
    }
    true
}

/// The simulated world.
#[derive(Debug)]
pub struct GameState {
    /// The players, in the order they joined.
    pub players: Vec<PlayerState>,
    pub collidables: Vec<SceneObject>,
    pub width: Scalar,
    pub height: Scalar,
    pub spawn_point: SpawnPoint,
    pub win_point: SceneObject,
    /// Elapsed time that no substep has consumed yet, in microseconds.
    pub cached_dt_micros: u64,
    pub scheduled_commands: CommandQueue,
}

/// Mathematical content of a [`GameState`].
pub struct GameStateView {
    pub players: Seq<PlayerStateView>,
    pub collidables: Seq<SceneObject>,
    pub width: Scalar,
    pub height: Scalar,
    pub spawn_point: SpawnPoint,
    pub win_point: SceneObject,
    pub cached_dt_micros: u64,
    pub scheduled_commands: Seq<ScheduledCommand>,
}

impl View for GameState {
    type V = GameStateView;

    open spec fn view(&self) -> GameStateView {
        GameStateView {
            players: players_view(self.players@),
            collidables: self.collidables@,
            width: self.width,
            height: self.height,
            spawn_point: self.spawn_point,
            win_point: self.win_point,
            cached_dt_micros: self.cached_dt_micros,
            scheduled_commands: self.scheduled_commands@,
        }
    }
}

impl GameState {
    /// Whether the players are well formed with distinct identities and the
    /// queue is in order.
    pub open spec fn wf(&self) -> bool {
        &&& roster_wf(self@.players)
        &&& self.scheduled_commands.wf()
    }

    /// A world without players over the given scene.
    pub fn new(
        collidables: Vec<SceneObject>,
        width: Scalar,
        height: Scalar,
        spawn_point: SpawnPoint,
        win_point: SceneObject,
    ) -> (state: GameState)
        ensures
            state.wf(),
            state@ == (GameStateView {
                players: Seq::empty(),
                collidables: collidables@,
                width,
                height,
                spawn_point,
                win_point,
                cached_dt_micros: 0,
                scheduled_commands: Seq::empty(),
            }),
    {
        let state = GameState {
            players: Vec::new(),
            collidables,
            width,
            height,
            spawn_point,
            win_point,
            cached_dt_micros: 0,
            scheduled_commands: CommandQueue::new(),
        };
        assert(state@.players =~= Seq::empty());
        state
    }

    /// Whether the players are well formed with distinct identities.
    pub fn check(&self) -> (ok: bool)
        ensures
            ok == roster_wf(self@.players),
    {
        check_roster(&self.players)
    }

    /// The first player with identity `id`, if there is one.
    pub fn player(&self, id: u32) -> (found: Option<&PlayerState>)
        ensures
            found is Some <==> has_player(self@.players, id),
            found is Some ==> exists|i: int|
                0 <= i < self.players.len() && *found.unwrap() == #[trigger] self.players[i]
                    && self.players[i].id == id && forall|j: int|
                    0 <= j < i ==> (#[trigger] self.players[j]).id != id,
    {
        match find_player(&self.players, id) {
            Some(i) => Some(&self.players[i]),
            None => None,
        }
    }

    /// Takes over the players of `new_state`; scene and timing stay.
    pub fn update_state(&mut self, new_state: GameState)
        ensures
            final(self)@ == (GameStateView { players: new_state@.players, ..old(self)@ }),
            final(self).scheduled_commands == old(self).scheduled_commands,
    {
        self.players = new_state.players;
    }

    /// Applies `scheduled` as far as it does not touch a velocity.
    ///
    /// The player the input is for is created at rest at the spawn point if
    /// it is unknown. A jump starts if the player can jump, and then resets
    /// its jump timer. The result says where the player is and whether a jump
    /// started; changing the velocity accordingly is left to the caller.
    pub fn execute_scheduled_command(&mut self, scheduled: &ScheduledCommand) -> (applied: Applied)
        requires
            old(self).wf(),
        ensures
            final(self).wf(),
            applied.index < final(self).players.len(),
            applied.index == position_of(
                with_player(old(self)@, scheduled.player_id),
                scheduled.player_id,
            ),
            applied.jumped == (scheduled.command == PlayerCommand::Jump && with_player(
                old(self)@,
                scheduled.player_id,
            )[applied.index as int].can_jump()),
            final(self)@ == (GameStateView {
                players: with_player(old(self)@, scheduled.player_id).update(
                    applied.index as int,
                    with_player(old(self)@, scheduled.player_id)[applied.index as int].after_input(
                        scheduled.command,
                    ),
                ),
                ..old(self)@
            }),
            final(self)@.players[applied.index as int].id == scheduled.player_id,
            final(self).scheduled_commands == old(self).scheduled_commands,
    {
        let ghost present = with_player(self@, scheduled.player_id);
        let index: usize = match find_player(&self.players, scheduled.player_id) {
            Some(i) => {
                i
            },
            None => {
                let player = PlayerState::new(scheduled.player_id, &self.spawn_point);
                let index: usize = self.players.len();
                self.players.push(player);
                proof {
                    let before = old(self)@.players;
                    let after = self@.players;
                    assert(after =~= before.push(
                        PlayerStateView::spawned(scheduled.player_id, old(self).spawn_point),
                    ));
                }
                index
            },
        };
        let jumped = match scheduled.command {
            PlayerCommand::Jump => self.players[index].can_jump(),
            _ => false,
        };
        if jumped {
            let mut player = self.players[index].clone();
            player.jump_timer = Scalar::zero();
            self.players[index] = player;
        }
        proof {
            let after = self@.players;
            let target = present.update(
                index as int,
                present[index as int].after_input(scheduled.command),
            );
            assert(after =~= target);
        }
        Applied { index, jumped }
    }
}

/// Where an applied input found its player, and what it started.
#[derive(Clone, Copy, Debug, PartialEq, Eq, Structural)]
pub struct Applied {
    /// Position of the player in `players`.
    pub index: usize,
    /// Whether a jump started; the player's vertical velocity is then to
    /// change by the jump force.
    pub jumped: bool,
}

/// The players of `state` with the player `id` among them: as they are if
/// it is, and with a newly created one at the end if it is not.
pub open spec fn with_player(state: GameStateView, id: u32) -> Seq<PlayerStateView> {
    if has_player(state.players, id) {
        state.players
    } else {
        state.players.push(PlayerStateView::spawned(id, state.spawn_point))
    }
}

} // verus!
