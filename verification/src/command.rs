//! Player inputs, as sampled by a client and as scheduled by the simulation.

use vstd::prelude::*;

verus! {

/// One discrete input.
#[derive(Clone, Copy, Debug, PartialEq, Eq, Structural)]
pub enum PlayerCommand {
    MoveLeft,
    MoveRight,
    Jump,
}

/// The inputs a client sampled in one frame.
#[derive(Debug)]
pub struct PlayerStateCommand {
    /// Per-client counter, one higher with every bundle.
    pub sequence: u32,
    /// Length of the frame the inputs cover, in microseconds.
    pub dt_micros: u64,
    /// The inputs; several may occur in one frame.
    pub commands: Vec<PlayerCommand>,
    /// The client's wall clock at sampling, in microseconds since the Unix epoch.
    pub client_timestamp_micros: u64,
}

/// Mathematical content of a [`PlayerStateCommand`].
pub struct PlayerStateCommandView {
    pub sequence: u32,
    pub dt_micros: u64,
    pub commands: Seq<PlayerCommand>,
    pub client_timestamp_micros: u64,
}

impl View for PlayerStateCommand {
    type V = PlayerStateCommandView;

    open spec fn view(&self) -> PlayerStateCommandView {
        PlayerStateCommandView {
            sequence: self.sequence,
            dt_micros: self.dt_micros,
            commands: self.commands@,
            client_timestamp_micros: self.client_timestamp_micros,
        }
    }
}

impl Clone for PlayerStateCommand {
    fn clone(&self) -> (r: Self)
        ensures
            r@ == self@,
    {
        let mut commands: Vec<PlayerCommand> = Vec::new();
        let mut i: usize = 0;
        while i < self.commands.len()
            invariant
                i <= self.commands.len(),
                commands@ == self.commands@.take(i as int),
            decreases self.commands.len() - i,
        {
            commands.push(self.commands[i]);
            i += 1;
        }
        assert(self.commands@.take(i as int) == self.commands@);
        PlayerStateCommand {
            sequence: self.sequence,
            dt_micros: self.dt_micros,
            commands,
            client_timestamp_micros: self.client_timestamp_micros,
        }
    }
}

/// A bundle of inputs as the authority sees it: whose it is, and how long it
/// was under way.
#[derive(Debug)]
pub struct CommandContent {
    pub player_id: u32,
    pub player_state_command: PlayerStateCommand,
    /// One-way delay measured for the packet, in microseconds.
    pub client_delay_micros: u64,
}

/// Mathematical content of a [`CommandContent`].
pub struct CommandContentView {
    pub player_id: u32,
    pub player_state_command: PlayerStateCommandView,
    pub client_delay_micros: u64,
}

impl View for CommandContent {
    type V = CommandContentView;

    open spec fn view(&self) -> CommandContentView {
        CommandContentView {
            player_id: self.player_id,
            player_state_command: self.player_state_command@,
            client_delay_micros: self.client_delay_micros,
        }
    }
}

impl Clone for CommandContent {
    fn clone(&self) -> (r: Self)
        ensures
            r@ == self@,
    {
        CommandContent {
            player_id: self.player_id,
            player_state_command: self.player_state_command.clone(),
            client_delay_micros: self.client_delay_micros,
        }
    }
}

impl CommandContent {
    /// Whether the instant at which the inputs take effect is representable.
    pub fn is_schedulable(&self) -> (ok: bool)
        ensures
            ok == self@.schedulable(),
    {
        self.player_state_command.client_timestamp_micros <= u64::MAX - self.client_delay_micros
    }
}

/// One input with the instant at which it takes effect.
#[derive(Clone, Copy, Debug, PartialEq, Eq, Structural)]
pub struct ScheduledCommand {
    /// Microseconds since the Unix epoch.
    pub execute_at_timestamp: u64,
    pub player_id: u32,
    /// Length of the client frame the input covers, in whole milliseconds.
    pub client_dt_ms: u64,
    pub command: PlayerCommand,
}

impl CommandContentView {
    /// The instant at which the inputs of this bundle take effect: the
    /// client's sampling time moved by the measured delay.
    pub open spec fn execute_at(self) -> int {
        self.player_state_command.client_timestamp_micros + self.client_delay_micros
    }

    /// Whether [`Self::execute_at`] is a representable instant.
    pub open spec fn schedulable(self) -> bool {
        self.execute_at() <= u64::MAX
    }

    /// The `i`-th input of this bundle, scheduled.
    pub open spec fn scheduled_at(self, i: int) -> ScheduledCommand {
        ScheduledCommand {
            execute_at_timestamp: self.execute_at() as u64,
            player_id: self.player_id,
            client_dt_ms: self.player_state_command.dt_micros / 1000,
            command: self.player_state_command.commands[i],
        }
    }

    /// The inputs of this bundle, scheduled, in bundle order.
    pub open spec fn scheduled(self) -> Seq<ScheduledCommand> {
        Seq::new(self.player_state_command.commands.len(), |i: int| self.scheduled_at(i))
    }
}

} // verus!
