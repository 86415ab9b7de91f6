//! A client's side of the connection: what it received and what it is about
//! to send, each held back by the configured delay.
//!
//! The embedding program owns the socket. It hands in every datagram it
//! receives and every bundle the game loop produced, and asks in each round
//! what has come due.

use crate::command::PlayerStateCommand;
use crate::delay_queue::{payloads, ready_count, release_time, DelayQueue, Delayed};
use crate::snapshot::Snapshot;
use crate::wire::{commands_encodable, encode_commands, parse_snapshot, SnapshotView};
use vstd::prelude::*;

verus! {

/// The contents of a queue of snapshots.
pub open spec fn snapshots_view(q: Seq<Delayed<Snapshot>>) -> Seq<(u64, SnapshotView)> {
    q.map_values(|d: Delayed<Snapshot>| (d.release_at, d.payload@))
}

/// The datagrams of the bundles of `bundles` that fit a datagram, in order.
pub open spec fn datagrams_of(bundles: Seq<PlayerStateCommand>) -> Seq<Seq<u8>>
    decreases bundles.len(),
{
    if bundles.len() == 0 {
        Seq::empty()
    } else if commands_encodable(bundles.last()@) {
        datagrams_of(bundles.drop_last()).push(encode_commands(bundles.last()@))
    } else {
        datagrams_of(bundles.drop_last())
    }
}

/// The contents of a list of datagrams.
pub open spec fn datagrams_view(datagrams: Seq<Vec<u8>>) -> Seq<Seq<u8>> {
    datagrams.map_values(|d: Vec<u8>| d@)
}

/// The two delay queues of a client and the delay they apply.
#[derive(Debug)]
pub struct Network {
    server_state_queue: DelayQueue<Snapshot>,
    command_queue: DelayQueue<PlayerStateCommand>,
    delay: u64,
}

impl Network {
    /// The received snapshots that wait for release, oldest first.
    pub closed spec fn states(&self) -> Seq<Delayed<Snapshot>> {
        self.server_state_queue@
    }

    /// The bundles that wait for sending, oldest first.
    pub closed spec fn commands(&self) -> Seq<Delayed<PlayerStateCommand>> {
        self.command_queue@
    }

    /// The delay in milliseconds that is applied to what enters from now on.
    pub closed spec fn spec_delay(&self) -> u64 {
        self.delay
    }

    /// Whether every waiting snapshot is well formed; it is in every
    /// connection this module hands out.
    pub open spec fn wf(&self) -> bool {
        forall|i: int| 0 <= i < self.states().len() ==> (#[trigger] self.states()[i]).payload.wf()
    }

    /// A connection with empty queues and the given delay.
    pub fn new(delay_millis: u64) -> (net: Network)
        ensures
            net.wf(),
            net.spec_delay() == delay_millis,
            net.states().len() == 0,
            net.commands().len() == 0,
    {
        Network {
            server_state_queue: DelayQueue::new(),
            command_queue: DelayQueue::new(),
            delay: delay_millis,
        }
    }

    /// The delay in milliseconds that is applied to what enters from now on.
    #[verifier::when_used_as_spec(spec_delay)]
    pub fn delay(&self) -> (delay: u64)
        ensures
            delay == self.spec_delay(),
    {
        self.delay
    }

    /// Changes the delay; what is queued keeps its release time.
    pub fn set_delay(&mut self, delay_millis: u64)
        ensures
            final(self).spec_delay() == delay_millis,
            final(self).states() == old(self).states(),
            final(self).commands() == old(self).commands(),
    {
        self.delay = delay_millis;
    }

    /// Takes in a datagram received at `now_micros`. A snapshot is queued
    /// for release after the delay; anything else is skipped. Says whether
    /// the datagram was a snapshot.
    pub fn receive(&mut self, packet: &[u8], now_micros: u64) -> (accepted: bool)
        requires
            old(self).wf(),
            release_time(now_micros, old(self).spec_delay()) <= u64::MAX,
        ensures
            final(self).wf(),
            accepted == parse_snapshot(packet@) is Some,
            final(self).spec_delay() == old(self).spec_delay(),
            final(self).commands() == old(self).commands(),
            !accepted ==> final(self).states() == old(self).states(),
            accepted ==> snapshots_view(final(self).states()) == snapshots_view(
                old(self).states(),
            ).push(
                (
                    release_time(now_micros, old(self).spec_delay()) as u64,
                    parse_snapshot(packet@).unwrap(),
                ),
            ),
    {
        match crate::state::GameState::deserialize(packet) {
            Ok(snapshot) => {
                let ghost before = self.server_state_queue@;
                self.server_state_queue.push(now_micros, self.delay, snapshot);
                assert forall|i: int| 0 <= i < self.states().len() implies (
                #[trigger] self.states()[i]).payload.wf() by {
                    if i < before.len() {
                        assert(self.states()[i] == old(self).states()[i]);
                    }
                }
                true
            },
            Err(_) => false,
        }
    }

    /// The snapshot to hand to the game loop at `now_micros`: of those that
    /// have come due the one received last. The others that have come due
    /// are dropped.
    pub fn poll_state(&mut self, now_micros: u64) -> (latest: Option<Snapshot>)
        requires
            old(self).wf(),
        ensures
            final(self).wf(),
            final(self).spec_delay() == old(self).spec_delay(),
            final(self).commands() == old(self).commands(),
            final(self).states() == old(self).states().skip(
                ready_count(old(self).states(), now_micros) as int,
            ),
            latest == if ready_count(old(self).states(), now_micros) == 0 {
                None
            } else {
                Some(old(self).states()[ready_count(old(self).states(), now_micros) - 1].payload)
            },
            latest is Some ==> latest.unwrap().wf(),
    {
        proof {
            crate::delay_queue::lemma_ready_count(self.states(), now_micros);
        }
        let latest = self.server_state_queue.pop_latest(now_micros);
        latest
    }

    /// Queues a bundle that the game loop produced at `now_micros` for
    /// sending after the delay.
    pub fn send(&mut self, command: PlayerStateCommand, now_micros: u64)
        requires
            old(self).wf(),
            release_time(now_micros, old(self).spec_delay()) <= u64::MAX,
        ensures
            final(self).wf(),
            final(self).spec_delay() == old(self).spec_delay(),
            final(self).states() == old(self).states(),
            final(self).commands() == old(self).commands().push(
                Delayed {
                    release_at: release_time(now_micros, old(self).spec_delay()) as u64,
                    payload: command,
                },
            ),
    {
        self.command_queue.push(now_micros, self.delay, command);
        assert forall|i: int| 0 <= i < self.states().len() implies (
        #[trigger] self.states()[i]).payload.wf() by {
            assert(self.states()[i] == old(self).states()[i]);
        }
    }

    /// The datagrams to send at `now_micros`: those of the bundles that
    /// have come due, in the order the bundles were queued. A bundle too
    /// large for a datagram is dropped.
    pub fn poll_commands(&mut self, now_micros: u64) -> (datagrams: Vec<Vec<u8>>)
        requires
            old(self).wf(),
        ensures
            final(self).wf(),
            final(self).spec_delay() == old(self).spec_delay(),
            final(self).states() == old(self).states(),
            final(self).commands() == old(self).commands().skip(
                ready_count(old(self).commands(), now_micros) as int,
            ),
            datagrams_view(datagrams@) == datagrams_of(
                payloads(
                    old(self).commands().take(ready_count(old(self).commands(), now_micros) as int),
                ),
            ),
    {
        let ready = self.command_queue.pop_ready(now_micros);
        assert forall|i: int| 0 <= i < self.states().len() implies (
        #[trigger] self.states()[i]).payload.wf() by {
            assert(self.states()[i] == old(self).states()[i]);
        }
        let mut datagrams: Vec<Vec<u8>> = Vec::new();
        let mut i: usize = 0;
        while i < ready.len()
            invariant
                i <= ready.len(),
                datagrams_view(datagrams@) == datagrams_of(ready@.take(i as int)),
            decreases ready.len() - i,
        {
            proof {
                assert(ready@.take(i + 1).drop_last() =~= ready@.take(i as int));
            }
            match ready[i].serialize() {
                Ok(bytes) => {
                    datagrams.push(bytes);
                },
                Err(_) => {},
            }
            i += 1;
        }
        assert(ready@.take(i as int) =~= ready@);
        datagrams
    }
}

} // verus!
