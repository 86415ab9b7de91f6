//! One client's frame, step by step.
//!
//! A frame takes in a snapshot if one has come due, samples the keys,
//! predicts the local player and places the other players. The order of
//! these steps matters: a snapshot is reconciled before the frame's own input
//! is predicted, and the others are placed last. [`GameLoop`] holds what
//! the steps share and offers each step as one call; what a step leaves to
//! arithmetic it hands back as a plan.

use crate::command::{PlayerStateCommand, PlayerStateCommandView};
use crate::game_logic::input::{commands_of, input_handler, server_delay, stamp_command, KeyState};
use crate::game_logic::ui_state::{after_escape, Screen, UiState};
use crate::interpolator::{lerp_tasks, since, Interpolation, Interpolator, InterpolatorView};
use crate::mutate::TickPlan;
use crate::predictor::{
    predicted_plan, predicted_state, reconciled_plan, reconciled_state, Predictor, PredictorView,
};
use crate::server::delay_of;
use crate::snapshot::{roster_after, upserted_all, Snapshot};
use crate::state::{GameState, GameStateView};
use vstd::prelude::*;

verus! {

/// What a client keeps from frame to frame.
#[derive(Debug)]
pub struct GameLoop {
    /// The player this client controls, as the last snapshot named it.
    pub client_player_id: u32,
    pub game_state: GameState,
    pub predictor: Predictor,
    pub interpolator: Interpolator,
    pub ui_state: UiState,
}

/// What the input step of a frame hands back.
#[derive(Debug)]
pub struct FrameInput {
    /// What predicting the frame does to the world; nothing while
    /// prediction is off.
    pub plan: Option<TickPlan>,
    /// The frame's input bundle, to be sent to the authority; nothing if no
    /// key was held.
    pub command: Option<PlayerStateCommand>,
}

/// The bundle of a frame in which `keys` were sampled.
pub open spec fn frame_bundle(keys: KeyState, sequence: u32, dt_micros: u64, now_micros: u64)
    -> Option<PlayerStateCommandView> {
    if commands_of(keys).len() == 0 {
        None
    } else {
        Some(
            PlayerStateCommandView {
                sequence,
                dt_micros,
                commands: commands_of(keys),
                client_timestamp_micros: now_micros,
            },
        )
    }
}

impl GameLoop {
    /// Whether the parts are well formed.
    pub open spec fn wf(&self) -> bool {
        &&& self.game_state.wf()
        &&& self.predictor.wf()
        &&& self.interpolator.wf()
    }

    /// The state of a client that has just started over the world
    /// `game_state` at `now_micros`: it takes itself for player 1 until a
    /// snapshot says otherwise, shows the main menu, and has predicted nothing.
    pub fn new(game_state: GameState, now_micros: u64) -> (this: GameLoop)
        requires
            game_state.wf(),
        ensures
            this.wf(),
            this.client_player_id == 1,
            this.game_state == game_state,
            this.predictor@ == (PredictorView {
                unconfirmed: Seq::empty(),
                active_prediction: true,
                active_reconciliation: true,
                sequence: 0,
            }),
            this.interpolator@ == (InterpolatorView {
                older: game_state@.players,
                newer: game_state@.players,
                received_new_state_at: now_micros,
                interpolation_time: 0,
                active: true,
            }),
            this.ui_state@ == seq![Screen::MainMenu],
    {
        let interpolator = Interpolator::new(&game_state, now_micros);
        GameLoop {
            client_player_id: 1,
            game_state,
            predictor: Predictor::new(),
            interpolator,
            ui_state: UiState::new(),
        }
    }

    /// Takes in a snapshot at `now_micros`.
    ///
    /// The snapshot's other players become the newer end of interpolation,
    /// its players replace the world's, and the player it names becomes the
    /// local player. Then the acknowledged sequence number is reconciled
    /// over the time the snapshot was under way; the returned plan says what
    /// the replay does to the world.
    pub fn take_snapshot(&mut self, snapshot: &Snapshot, now_micros: u64) -> (plan: Option<
        TickPlan,
    >)
        requires
            old(self).wf(),
            snapshot.wf(),
            old(self).predictor@.active_reconciliation ==> 2 * delay_of(
                now_micros,
                snapshot.server_timestamp,
            ) <= now_micros,
        ensures
            final(self).wf(),
            final(self).client_player_id == snapshot.client_player.id,
            final(self).ui_state == old(self).ui_state,
            final(self).interpolator@ == (InterpolatorView {
                older: old(self).interpolator@.newer,
                newer: upserted_all(Seq::empty(), snapshot@.players),
                received_new_state_at: now_micros,
                interpolation_time: since(
                    old(self).interpolator@.received_new_state_at,
                    now_micros,
                ),
                active: old(self).interpolator@.active,
            }),
            final(self).predictor@ == old(self).predictor@.reconciled(snapshot.sequence),
            final(self).game_state@.players == roster_after(snapshot@),
            !old(self).predictor@.active_reconciliation ==> plan is None
                && final(self).game_state@ == (GameStateView {
                players: roster_after(snapshot@),
                ..old(self).game_state@
            }),
            old(self).predictor@.active_reconciliation ==> plan is Some && plan.unwrap()@
                == reconciled_plan(
                final(self).predictor@.unconfirmed,
                delay_of(now_micros, snapshot.server_timestamp),
                snapshot.client_player.id,
                now_micros,
            ) && final(self).game_state@ == reconciled_state(
                GameStateView { players: roster_after(snapshot@), ..old(self).game_state@ },
                delay_of(now_micros, snapshot.server_timestamp),
            ),
    {
        self.interpolator.set_new_state(snapshot.roster(), now_micros);
        self.client_player_id = snapshot.client_player.id;
        self.game_state.apply_snapshot(snapshot);
        let delay = server_delay(now_micros, snapshot.server_timestamp);
        self.predictor.reconciliation(
            &mut self.game_state,
            snapshot.sequence,
            self.client_player_id,
            delay,
            now_micros,
        )
    }

    /// Takes in the keys of a frame of `dt_micros` that ends at `now_micros`.
    ///
    /// Escape moves between screens. The held keys become the frame's input
    /// bundle under the predictor's sequence number, and the frame is
    /// predicted for the local player.
    pub fn take_input(&mut self, keys: KeyState, dt_micros: u64, now_micros: u64) -> (out:
        FrameInput)
        requires
            old(self).wf(),
            old(self).predictor@.active_prediction ==> old(self).game_state.cached_dt_micros
                + dt_micros <= now_micros,
        ensures
            final(self).wf(),
            final(self).client_player_id == old(self).client_player_id,
            final(self).interpolator == old(self).interpolator,
            final(self).game_state.players == old(self).game_state.players,
            final(self).ui_state@ == if keys.escape {
                after_escape(old(self).ui_state@)
            } else {
                old(self).ui_state@
            },
            match out.command {
                Some(c) => Some(c@),
                None => None,
            } == frame_bundle(keys, old(self).predictor@.sequence, dt_micros, now_micros),
            final(self).predictor@ == old(self).predictor@.predicted(
                old(self).client_player_id,
                frame_bundle(keys, old(self).predictor@.sequence, dt_micros, now_micros),
            ),
            !old(self).predictor@.active_prediction ==> out.plan is None && final(self).game_state
                == old(self).game_state,
            old(self).predictor@.active_prediction ==> out.plan is Some && out.plan.unwrap()@
                == predicted_plan(
                old(self).game_state@,
                old(self).client_player_id,
                frame_bundle(keys, old(self).predictor@.sequence, dt_micros, now_micros),
                dt_micros,
                now_micros,
            ) && final(self).game_state@ == predicted_state(old(self).game_state@, dt_micros),
    {
        let commands = input_handler(&mut self.ui_state, keys);
        let command = stamp_command(
            commands,
            self.predictor.next_sequence(),
            dt_micros,
            now_micros,
        );
        let plan = self.predictor.predict(
            &mut self.game_state,
            self.client_player_id,
            command.as_ref(),
            dt_micros,
            now_micros,
        );
        FrameInput { plan, command }
    }

    /// What to place at `now_micros`: every player but the local one,
    /// between the two most recent snapshots. Nothing while interpolation
    /// is off.
    pub fn place_others(&self, now_micros: u64) -> (r: Option<Interpolation>)
        requires
            self.wf(),
        ensures
            r is Some <==> self.interpolator@.active,
            r is Some ==> r.unwrap().progress == self.interpolator@.progress(now_micros)
                && r.unwrap().tasks@ == lerp_tasks(
                self.game_state@.players,
                self.interpolator@.older,
                self.interpolator@.newer,
                self.client_player_id,
            ),
    {
        self.interpolator.interpolate(&self.game_state, self.client_player_id, now_micros)
    }
}

} // verus!
