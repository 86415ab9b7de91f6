//! Client-side prediction and reconciliation.
//!
//! A client applies its own inputs at once instead of waiting for the
//! authority, and remembers them as unconfirmed. When a snapshot
//! acknowledges a sequence number, the inputs up to it are forgotten and the
//! rest is replayed on top of the authoritative state.

use crate::command::{
    CommandContent, CommandContentView, PlayerStateCommand, PlayerStateCommandView,
};
use crate::mutate::{
    batch_scheduled, batch_view, insert_all, tick_plan, TickPlan, TickPlanView, FIXED_DT_MICROS,
};
use crate::state::{GameState, GameStateView};
use vstd::prelude::*;

verus! {

/// An input bundle the authority has not acknowledged yet.
#[derive(Debug)]
pub struct ReconciliationCommand {
    pub command: CommandContent,
    pub sequence: u32,
}

/// Mathematical content of a [`ReconciliationCommand`].
pub struct ReconciliationCommandView {
    pub command: CommandContentView,
    pub sequence: u32,
}

impl View for ReconciliationCommand {
    type V = ReconciliationCommandView;

    open spec fn view(&self) -> ReconciliationCommandView {
        ReconciliationCommandView { command: self.command@, sequence: self.sequence }
    }
}

impl Clone for ReconciliationCommand {
    fn clone(&self) -> (r: Self)
        ensures
            r@ == self@,
    {
        ReconciliationCommand { command: self.command.clone(), sequence: self.sequence }
    }
}

/// The predictor of one client.
#[derive(Debug)]
pub struct Predictor {
    reconciliation_commands: Vec<ReconciliationCommand>,
    pub active_prediction: bool,
    pub active_reconciliation: bool,
    /// The sequence number the next input bundle gets.
    pub sequence: u32,
}

/// Mathematical content of a [`Predictor`].
pub struct PredictorView {
    /// The unconfirmed bundles, oldest first.
    pub unconfirmed: Seq<ReconciliationCommandView>,
    pub active_prediction: bool,
    pub active_reconciliation: bool,
    pub sequence: u32,
}

impl View for Predictor {
    type V = PredictorView;

    closed spec fn view(&self) -> PredictorView {
        PredictorView {
            unconfirmed: self.reconciliation_commands@.map_values(
                |c: ReconciliationCommand| c@,
            ),
            active_prediction: self.active_prediction,
            active_reconciliation: self.active_reconciliation,
            sequence: self.sequence,
        }
    }
}

/// The bundle `command` as the client schedules it for itself: without delay.
pub open spec fn local_content(
    player_id: u32,
    command: PlayerStateCommandView,
) -> CommandContentView {
    CommandContentView { player_id, player_state_command: command, client_delay_micros: 0 }
}

/// The batch a frame's prediction schedules: the frame's bundle for the
/// local player, if the frame has one.
pub open spec fn local_batch(
    player_id: u32,
    command: Option<PlayerStateCommandView>,
) -> Seq<CommandContentView> {
    match command {
        Some(c) => seq![local_content(player_id, c)],
        None => Seq::empty(),
    }
}

/// The plan by which a frame of `dt_micros` that ends at `now_micros` is
/// predicted.
pub open spec fn predicted_plan(
    state: GameStateView,
    player_id: u32,
    command: Option<PlayerStateCommandView>,
    dt_micros: u64,
    now_micros: u64,
) -> TickPlanView {
    tick_plan(
        insert_all(state.scheduled_commands, batch_scheduled(local_batch(player_id, command))),
        now_micros as int,
        state.cached_dt_micros + dt_micros,
        Some(player_id),
    )
}

/// The timing of a world after a frame of `dt_micros` was predicted.
pub open spec fn predicted_state(state: GameStateView, dt_micros: u64) -> GameStateView {
    GameStateView {
        cached_dt_micros: ((state.cached_dt_micros + dt_micros) % (FIXED_DT_MICROS as int)) as u64,
        scheduled_commands: Seq::empty(),
        ..state
    }
}

/// The content of an optional bundle.
pub open spec fn bundle_view(command: Option<&PlayerStateCommand>) -> Option<
    PlayerStateCommandView,
> {
    match command {
        Some(c) => Some(c@),
        None => None,
    }
}

/// The sequence number after `sequence`; it wraps around.
pub open spec fn sequence_after(sequence: u32) -> u32 {
    if sequence == u32::MAX {
        0
    } else {
        (sequence + 1) as u32
    }
}

/// The entries of `unconfirmed` that `server_sequence` does not
/// acknowledge: those with a higher sequence number, in order.
pub open spec fn unconfirmed_after(
    unconfirmed: Seq<ReconciliationCommandView>,
    server_sequence: u32,
) -> Seq<ReconciliationCommandView>
    decreases unconfirmed.len(),
{
    if unconfirmed.len() == 0 {
        Seq::empty()
    } else if unconfirmed.last().sequence > server_sequence {
        unconfirmed_after(unconfirmed.drop_last(), server_sequence).push(unconfirmed.last())
    } else {
        unconfirmed_after(unconfirmed.drop_last(), server_sequence)
    }
}

/// The bundles of `unconfirmed`, in order.
pub open spec fn replay_batch(unconfirmed: Seq<ReconciliationCommandView>) -> Seq<
    CommandContentView,
> {
    unconfirmed.map_values(|c: ReconciliationCommandView| c.command)
}

impl PredictorView {
    /// Whether every unconfirmed bundle can be scheduled.
    pub open spec fn wf(self) -> bool {
        forall|i: int|
            0 <= i < self.unconfirmed.len() ==> (
            #[trigger] self.unconfirmed[i]).command.schedulable()
    }

    /// The predictor after a frame of the player `player_id` with the
    /// bundle `command`, if any, was predicted.
    pub open spec fn predicted(
        self,
        player_id: u32,
        command: Option<PlayerStateCommandView>,
    ) -> PredictorView {
        match command {
            Some(c) if self.active_prediction => PredictorView {
                unconfirmed: self.unconfirmed.push(
                    ReconciliationCommandView {
                        command: local_content(player_id, c),
                        sequence: self.sequence,
                    },
                ),
                sequence: sequence_after(self.sequence),
                ..self
            },
            _ => self,
        }
    }

    /// The predictor after a snapshot acknowledged `server_sequence`.
    pub open spec fn reconciled(self, server_sequence: u32) -> PredictorView {
        if self.active_reconciliation {
            PredictorView {
                unconfirmed: unconfirmed_after(self.unconfirmed, server_sequence),
                ..self
            }
        } else {
            self
        }
    }
}

/// The timing of a world after reconciliation replayed `unconfirmed` over
/// a round trip of twice `server_delay`.
pub open spec fn reconciled_state(state: GameStateView, server_delay: u64) -> GameStateView {
    GameStateView {
        cached_dt_micros: ((2 * server_delay) % (FIXED_DT_MICROS as int)) as u64,
        scheduled_commands: Seq::empty(),
        ..state
    }
}

/// The plan by which reconciliation replays `unconfirmed`.
pub open spec fn reconciled_plan(
    unconfirmed: Seq<ReconciliationCommandView>,
    server_delay: u64,
    client_player_id: u32,
    now_micros: u64,
) -> TickPlanView {
    tick_plan(
        insert_all(Seq::empty(), batch_scheduled(replay_batch(unconfirmed))),
        now_micros as int,
        2 * server_delay,
        Some(client_player_id),
    )
}

/// What an acknowledgement leaves is left by the same acknowledgement, and
/// every entry left has a higher sequence number.
pub proof fn lemma_unconfirmed_after(
    unconfirmed: Seq<ReconciliationCommandView>,
    server_sequence: u32,
)
    ensures
        unconfirmed_after(unconfirmed_after(unconfirmed, server_sequence), server_sequence)
            == unconfirmed_after(unconfirmed, server_sequence),
        unconfirmed_after(unconfirmed, server_sequence).len() <= unconfirmed.len(),
        forall|i: int|
            0 <= i < unconfirmed_after(unconfirmed, server_sequence).len() ==> (
            #[trigger] unconfirmed_after(unconfirmed, server_sequence)[i]).sequence
                > server_sequence && unconfirmed.contains(
                unconfirmed_after(unconfirmed, server_sequence)[i],
            ),
    decreases unconfirmed.len(),
{
    let kept = unconfirmed_after(unconfirmed, server_sequence);
    if unconfirmed.len() > 0 {
        let init = unconfirmed.drop_last();
        let prev = unconfirmed_after(init, server_sequence);
        lemma_unconfirmed_after(init, server_sequence);
        if unconfirmed.last().sequence > server_sequence {
            assert(kept.drop_last() =~= prev);
        }
    }
}

/// Reconciling twice in succession with the same snapshot at the same
/// instant gives the same predictor, the same timing and the same replay
/// as reconciling once.
pub proof fn theorem_reconciliation_idempotent(
    predictor: PredictorView,
    state: GameStateView,
    server_sequence: u32,
    server_delay: u64,
    client_player_id: u32,
    now_micros: u64,
)
    ensures
        predictor.reconciled(server_sequence).reconciled(server_sequence) == predictor.reconciled(
            server_sequence,
        ),
        reconciled_state(reconciled_state(state, server_delay), server_delay) == reconciled_state(
            state,
            server_delay,
        ),
        reconciled_plan(
            predictor.reconciled(server_sequence).reconciled(server_sequence).unconfirmed,
            server_delay,
            client_player_id,
            now_micros,
        ) == reconciled_plan(
            predictor.reconciled(server_sequence).unconfirmed,
            server_delay,
            client_player_id,
            now_micros,
        ),
{
    lemma_unconfirmed_after(predictor.unconfirmed, server_sequence);
}

impl Predictor {
    /// Whether every unconfirmed bundle can be scheduled; every predictor
    /// this module hands out is.
    pub open spec fn wf(&self) -> bool {
        self@.wf()
    }

    /// A predictor with nothing unconfirmed, prediction and reconciliation
    /// on, and sequence number 0.
    pub fn new() -> (p: Predictor)
        ensures
            p.wf(),
            p@ == (PredictorView {
                unconfirmed: Seq::empty(),
                active_prediction: true,
                active_reconciliation: true,
                sequence: 0,
            }),
    {
        let p = Predictor {
            reconciliation_commands: Vec::new(),
            active_prediction: true,
            active_reconciliation: true,
            sequence: 0,
        };
        assert(p@.unconfirmed =~= Seq::empty());
        p
    }

    /// The sequence number the next input bundle gets.
    pub fn next_sequence(&self) -> (sequence: u32)
        ensures
            sequence == self@.sequence,
    {
        self.sequence
    }

    /// Number of unconfirmed bundles.
    pub fn unconfirmed_len(&self) -> (n: usize)
        ensures
            n == self@.unconfirmed.len(),
    {
        self.reconciliation_commands.len()
    }

    /// Advances the local world by one frame of `dt_micros` that ends at
    /// `now_micros`.
    ///
    /// With prediction off nothing happens. Otherwise the frame's input
    /// bundle, if there is one, is scheduled without delay for the local
    /// player, remembered as unconfirmed under the current sequence number,
    /// and the sequence number goes up by one; without a bundle only time
    /// passes. The returned plan says what the frame does to the world.
    pub fn predict(
        &mut self,
        game_state: &mut GameState,
        client_player_id: u32,
        player_state_command: Option<&PlayerStateCommand>,
        dt_micros: u64,
        now_micros: u64,
    ) -> (plan: Option<TickPlan>)
        requires
            old(self).wf(),
            old(game_state).scheduled_commands.wf(),
            old(self)@.active_prediction ==> old(game_state).cached_dt_micros + dt_micros
                <= now_micros,
        ensures
            final(self).wf(),
            final(game_state).scheduled_commands.wf(),
            final(game_state).players == old(game_state).players,
            final(self)@ == old(self)@.predicted(
                client_player_id,
                bundle_view(player_state_command),
            ),
            !old(self)@.active_prediction ==> plan is None && *final(game_state) == *old(
                game_state,
            ),
            old(self)@.active_prediction ==> plan is Some && plan.unwrap()@ == predicted_plan(
                old(game_state)@,
                client_player_id,
                bundle_view(player_state_command),
                dt_micros,
                now_micros,
            ) && final(game_state)@ == predicted_state(old(game_state)@, dt_micros),
    {
        if !self.active_prediction {
            return None;
        }
        match player_state_command {
            Some(command) => {
                let command_content = CommandContent {
                    player_id: client_player_id,
                    player_state_command: command.clone(),
                    client_delay_micros: 0,
                };
                let mut batch: Vec<CommandContent> = Vec::new();
                batch.push(command_content.clone());
                assert(batch_view(batch@) =~= seq![local_content(client_player_id, command@)]);
                let plan = game_state.mutate(
                    &batch,
                    dt_micros,
                    Some(client_player_id),
                    now_micros,
                );
                let ghost before = self@.unconfirmed;
                let entry = ReconciliationCommand {
                    command: command_content,
                    sequence: self.sequence,
                };
                self.reconciliation_commands.push(entry);
                self.sequence = if self.sequence == u32::MAX {
                    0
                } else {
                    self.sequence + 1
                };
                assert(self@.unconfirmed =~= before.push(
                    ReconciliationCommandView {
                        command: local_content(client_player_id, command@),
                        sequence: old(self).sequence,
                    },
                ));
                Some(plan)
            },
            None => {
                let batch: Vec<CommandContent> = Vec::new();
                let plan = game_state.mutate(
                    &batch,
                    dt_micros,
                    Some(client_player_id),
                    now_micros,
                );
                Some(plan)
            },
        }
    }

    /// Takes in the acknowledgement of `server_sequence` that a snapshot
    /// brought, `server_delay` microseconds after the authority made it.
    ///
    /// With reconciliation off nothing happens. Otherwise the unconfirmed
    /// bundles up to `server_sequence` are forgotten, the world's left-over
    /// time and queue are cleared, and the remaining bundles are replayed in
    /// one advance of twice `server_delay` that ends at `now_micros`. The
    /// returned plan says what the replay does to the world.
    pub fn reconciliation(
        &mut self,
        game_state: &mut GameState,
        server_sequence: u32,
        client_player_id: u32,
        server_delay: u64,
        now_micros: u64,
    ) -> (plan: Option<TickPlan>)
        requires
            old(self).wf(),
            old(self)@.active_reconciliation ==> 2 * server_delay <= now_micros,
        ensures
            final(self).wf(),
            final(game_state).players == old(game_state).players,
            final(self)@ == old(self)@.reconciled(server_sequence),
            !old(self)@.active_reconciliation ==> plan is None && *final(game_state) == *old(
                game_state,
            ),
            old(self)@.active_reconciliation ==> plan is Some && plan.unwrap()@ == reconciled_plan(
                final(self)@.unconfirmed,
                server_delay,
                client_player_id,
                now_micros,
            ) && final(game_state)@ == reconciled_state(old(game_state)@, server_delay)
                && final(game_state).scheduled_commands.wf(),
    {
        if !self.active_reconciliation {
            return None;
        }
        let ghost before = self@.unconfirmed;
        let mut kept: Vec<ReconciliationCommand> = Vec::new();
        let mut batch: Vec<CommandContent> = Vec::new();
        let mut i: usize = 0;
        while i < self.reconciliation_commands.len()
            invariant
                i <= self.reconciliation_commands.len(),
                before == self@.unconfirmed,
                self.wf(),
                kept@.map_values(|c: ReconciliationCommand| c@) == unconfirmed_after(
                    before.take(i as int),
                    server_sequence,
                ),
                batch_view(batch@) == replay_batch(
                    unconfirmed_after(before.take(i as int), server_sequence),
                ),
                forall|j: int| 0 <= j < batch.len() ==> (#[trigger] batch[j])@.schedulable(),
            decreases self.reconciliation_commands.len() - i,
        {
            let ghost batch_before = batch_view(batch@);
            proof {
                assert(before.take(i + 1).drop_last() =~= before.take(i as int));
            }
            if self.reconciliation_commands[i].sequence > server_sequence {
                let entry = self.reconciliation_commands[i].clone();
                batch.push(entry.command.clone());
                kept.push(entry);
                proof {
                    assert(batch_view(batch@) =~= batch_before.push(before[i as int].command));
                }
            }
            i += 1;
        }
        proof {
            assert(before.take(i as int) =~= before);
            lemma_unconfirmed_after(before, server_sequence);
        }
        self.reconciliation_commands = kept;
        game_state.clear_cache();
        let plan = game_state.mutate(
            &batch,
            2 * server_delay,
            Some(client_player_id),
            now_micros,
        );
        Some(plan)
    }
}

} // verus!
