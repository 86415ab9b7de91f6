//! The fixed-timestep advance: which scheduled input runs in which substep.
//!
//! Advancing the world by an elapsed time is split in two. This module
//! decides: it schedules the incoming inputs, cuts the elapsed time into
//! substeps of [`FIXED_DT_MICROS`], and assigns to each substep the inputs
//! that are due at its instant. The result is a [`TickPlan`]. Carrying the
//! plan out (the effect of each input on its player, and the physics of each
//! substep) is arithmetic on scalars and belongs to the caller.

use crate::command::{CommandContent, CommandContentView, ScheduledCommand};
use crate::queue::{
    due_count, inserted, lemma_due_count, lemma_due_count_from, lemma_due_count_ordered,
    lemma_inserted_ordered, ordered,
};
use crate::state::{GameState, GameStateView};
use vstd::prelude::*;

verus! {

/// Length of one physics substep, in microseconds.
pub const FIXED_DT_MICROS: u64 = 16000;

/// One physics substep and the inputs that take effect just before it.
#[derive(Debug)]
pub struct Substep {
    /// The instant of the substep, in microseconds since the Unix epoch.
    pub execute_time: u64,
    /// The inputs to apply before the physics of this substep, in order.
    pub commands: Vec<ScheduledCommand>,
}

/// Mathematical content of a [`Substep`].
pub struct SubstepView {
    pub execute_time: u64,
    pub commands: Seq<ScheduledCommand>,
}

impl View for Substep {
    type V = SubstepView;

    open spec fn view(&self) -> SubstepView {
        SubstepView { execute_time: self.execute_time, commands: self.commands@ }
    }
}

/// What one advance of the world consists of.
///
/// To carry it out: for each substep in order, apply its inputs in order
/// and run one physics step of [`FIXED_DT_MICROS`]; afterwards apply the
/// late inputs in order.
#[derive(Debug)]
pub struct TickPlan {
    pub substeps: Vec<Substep>,
    /// Inputs that were not due at the last substep; they are applied after it.
    pub late: Vec<ScheduledCommand>,
    /// On a client, the locally controlled player the advance is made for.
    pub client_player_id: Option<u32>,
}

/// The contents of a sequence of substeps.
pub open spec fn substeps_view(substeps: Seq<Substep>) -> Seq<SubstepView> {
    substeps.map_values(|s: Substep| s@)
}

/// Mathematical content of a [`TickPlan`].
pub struct TickPlanView {
    pub substeps: Seq<SubstepView>,
    pub late: Seq<ScheduledCommand>,
    pub client_player_id: Option<u32>,
}

impl View for TickPlan {
    type V = TickPlanView;

    open spec fn view(&self) -> TickPlanView {
        TickPlanView {
            substeps: substeps_view(self.substeps@),
            late: self.late@,
            client_player_id: self.client_player_id,
        }
    }
}

/// `q` after scheduling each of `cs`, first to last.
pub open spec fn insert_all(q: Seq<ScheduledCommand>, cs: Seq<ScheduledCommand>) -> Seq<
    ScheduledCommand,
>
    decreases cs.len(),
{
    if cs.len() == 0 {
        q
    } else {
        inserted(insert_all(q, cs.drop_last()), cs.last())
    }
}

/// The inputs of all bundles of `batch`, scheduled, bundle after bundle.
pub open spec fn batch_scheduled(batch: Seq<CommandContentView>) -> Seq<ScheduledCommand>
    decreases batch.len(),
{
    if batch.len() == 0 {
        Seq::empty()
    } else {
        batch_scheduled(batch.drop_last()) + batch.last().scheduled()
    }
}

/// The contents of a batch of bundles.
pub open spec fn batch_view(batch: Seq<CommandContent>) -> Seq<CommandContentView> {
    batch.map_values(|c: CommandContent| c@)
}

/// The instant of substep `k` (counted from 0) of an advance that ends at
/// `end_tick` and has `total` microseconds to consume.
pub open spec fn substep_time(end_tick: int, total: int, k: int) -> int {
    end_tick - total + k * FIXED_DT_MICROS
}

/// Number of entries of `q` that substeps before substep `k` have taken out.
pub open spec fn taken_before(q: Seq<ScheduledCommand>, end_tick: int, total: int, k: int) -> int {
    if k <= 0 {
        0
    } else {
        due_count(q, substep_time(end_tick, total, k - 1)) as int
    }
}

/// Substep `k` of the advance over queue `q`.
pub open spec fn substep_at(q: Seq<ScheduledCommand>, end_tick: int, total: int, k: int)
    -> SubstepView {
    SubstepView {
        execute_time: substep_time(end_tick, total, k) as u64,
        commands: q.subrange(
            taken_before(q, end_tick, total, k),
            taken_before(q, end_tick, total, k + 1),
        ),
    }
}

/// The plan of an advance that ends at `end_tick`, has `total` microseconds
/// to consume and finds `q` scheduled.
///
/// There are `total / FIXED_DT_MICROS` substeps; substep `k` gets the
/// entries that are due at its instant and at no earlier substep; what is due
/// at none of them is late.
pub open spec fn tick_plan(
    q: Seq<ScheduledCommand>,
    end_tick: int,
    total: int,
    client_player_id: Option<u32>,
) -> TickPlanView {
    let n = total / (FIXED_DT_MICROS as int);
    TickPlanView {
        substeps: Seq::new(n as nat, |k: int| substep_at(q, end_tick, total, k)),
        late: q.skip(taken_before(q, end_tick, total, n)),
        client_player_id,
    }
}

/// Scheduling keeps the order.
pub proof fn lemma_insert_all_ordered(q: Seq<ScheduledCommand>, cs: Seq<ScheduledCommand>)
    requires
        ordered(q),
    ensures
        ordered(insert_all(q, cs)),
        insert_all(q, cs).len() == q.len() + cs.len(),
        insert_all(q, cs).to_multiset() == q.to_multiset().add(cs.to_multiset()),
    decreases cs.len(),
{
    broadcast use vstd::seq_lib::group_to_multiset_ensures;

    if cs.len() > 0 {
        lemma_insert_all_ordered(q, cs.drop_last());
        lemma_inserted_ordered(insert_all(q, cs.drop_last()), cs.last());
        assert(cs == cs.drop_last().push(cs.last()));
    }
}

/// The substeps take the queue out front to back.
pub proof fn lemma_taken_before(q: Seq<ScheduledCommand>, end_tick: int, total: int, k: int)
    requires
        0 <= k,
    ensures
        0 <= taken_before(q, end_tick, total, k) <= taken_before(q, end_tick, total, k + 1)
            <= q.len(),
        taken_before(q, end_tick, total, k + 1) == taken_before(q, end_tick, total, k) + due_count(
            q.skip(taken_before(q, end_tick, total, k)),
            substep_time(end_tick, total, k),
        ),
{
    let t = substep_time(end_tick, total, k);
    lemma_due_count(q, t);
    if k > 0 {
        let t0 = substep_time(end_tick, total, k - 1);
        lemma_due_count(q, t0);
    }
    lemma_due_count_from(q, t, taken_before(q, end_tick, total, k));
}

/// Every input is applied at an instant at or after the one it was
/// scheduled for: an input of substep `k` is due at the instant of substep `k`.
pub proof fn lemma_applied_when_due(
    q: Seq<ScheduledCommand>,
    end_tick: int,
    total: int,
    client_player_id: Option<u32>,
    k: int,
    i: int,
)
    requires
        0 <= total <= end_tick <= u64::MAX,
        0 <= k < tick_plan(q, end_tick, total, client_player_id).substeps.len(),
        0 <= i < tick_plan(q, end_tick, total, client_player_id).substeps[k].commands.len(),
    ensures
        tick_plan(q, end_tick, total, client_player_id).substeps[k].commands[i].execute_at_timestamp
            <= tick_plan(q, end_tick, total, client_player_id).substeps[k].execute_time,
        tick_plan(q, end_tick, total, client_player_id).substeps[k].execute_time == substep_time(
            end_tick,
            total,
            k,
        ),
{
    let t = substep_time(end_tick, total, k);
    lemma_taken_before(q, end_tick, total, k);
    lemma_due_count(q, t);
    let n = total / (FIXED_DT_MICROS as int);
    assert(k * FIXED_DT_MICROS <= n * FIXED_DT_MICROS) by (nonlinear_arith)
        requires
            0 <= k < n,
    ;
    assert(n * FIXED_DT_MICROS <= total) by (nonlinear_arith)
        requires
            n == total / (FIXED_DT_MICROS as int),
            total >= 0,
    ;
}

/// In an ordered queue an input in substep `k` was not yet due at the
/// substep before, and a late input is due at no substep.
pub proof fn lemma_applied_no_earlier(
    q: Seq<ScheduledCommand>,
    end_tick: int,
    total: int,
    client_player_id: Option<u32>,
)
    requires
        ordered(q),
        0 <= total,
    ensures
        forall|k: int, i: int|
            #![trigger tick_plan(q, end_tick, total, client_player_id).substeps[k].commands[i]]
            1 <= k < tick_plan(q, end_tick, total, client_player_id).substeps.len() && 0 <= i
                < tick_plan(q, end_tick, total, client_player_id).substeps[k].commands.len()
                ==> tick_plan(
                q,
                end_tick,
                total,
                client_player_id,
            ).substeps[k].commands[i].execute_at_timestamp > substep_time(end_tick, total, k - 1),
        forall|i: int|
            #![trigger tick_plan(q, end_tick, total, client_player_id).late[i]]
            total >= FIXED_DT_MICROS && 0 <= i < tick_plan(
                q,
                end_tick,
                total,
                client_player_id,
            ).late.len() ==> tick_plan(
                q,
                end_tick,
                total,
                client_player_id,
            ).late[i].execute_at_timestamp > substep_time(
                end_tick,
                total,
                total / (FIXED_DT_MICROS as int) - 1,
            ),
{
    let plan = tick_plan(q, end_tick, total, client_player_id);
    let n = total / (FIXED_DT_MICROS as int);
    assert forall|k: int, i: int|
        1 <= k < plan.substeps.len() && 0 <= i < plan.substeps[k].commands.len() implies (
    #[trigger] plan.substeps[k].commands[i]).execute_at_timestamp > substep_time(
        end_tick,
        total,
        k - 1,
    ) by {
        lemma_taken_before(q, end_tick, total, k);
        lemma_due_count_ordered(q, substep_time(end_tick, total, k - 1));
    }
    assert forall|i: int| total >= FIXED_DT_MICROS && 0 <= i < plan.late.len() implies (
    #[trigger] plan.late[i]).execute_at_timestamp > substep_time(end_tick, total, n - 1) by {
        lemma_taken_before(q, end_tick, total, n);
        lemma_due_count_ordered(q, substep_time(end_tick, total, n - 1));
    }
}

/// The inputs of `substeps`, in the order they are applied.
pub open spec fn flattened(substeps: Seq<SubstepView>) -> Seq<ScheduledCommand>
    decreases substeps.len(),
{
    if substeps.len() == 0 {
        Seq::empty()
    } else {
        flattened(substeps.drop_last()) + substeps.last().commands
    }
}

/// The first `n` substeps of a plan apply exactly what they took out.
proof fn lemma_flattened_prefix(q: Seq<ScheduledCommand>, end_tick: int, total: int, n: int)
    requires
        0 <= n,
    ensures
        flattened(Seq::new(n as nat, |k: int| substep_at(q, end_tick, total, k))) == q.take(
            taken_before(q, end_tick, total, n),
        ),
    decreases n,
{
    let s = Seq::new(n as nat, |k: int| substep_at(q, end_tick, total, k));
    if n > 0 {
        lemma_flattened_prefix(q, end_tick, total, n - 1);
        lemma_taken_before(q, end_tick, total, n - 1);
        assert(s.drop_last() =~= Seq::new(
            (n - 1) as nat,
            |k: int| substep_at(q, end_tick, total, k),
        ));
    }
}

/// A plan applies every scheduled input exactly once, in queue order.
pub proof fn lemma_plan_applies_queue(
    q: Seq<ScheduledCommand>,
    end_tick: int,
    total: int,
    client_player_id: Option<u32>,
)
    requires
        0 <= total,
    ensures
        flattened(tick_plan(q, end_tick, total, client_player_id).substeps) + tick_plan(
            q,
            end_tick,
            total,
            client_player_id,
        ).late == q,
{
    let n = total / (FIXED_DT_MICROS as int);
    lemma_flattened_prefix(q, end_tick, total, n);
    if n > 0 {
        lemma_taken_before(q, end_tick, total, n - 1);
    }
}

impl GameState {
    /// Takes out of the queue, in order, the inputs that are due at
    /// `execute_time`.
    pub fn execute_commands(&mut self, execute_time: u64) -> (due: Vec<ScheduledCommand>)
        requires
            old(self).scheduled_commands.wf(),
        ensures
            final(self).scheduled_commands.wf(),
            due@ == old(self)@.scheduled_commands.take(
                due_count(old(self)@.scheduled_commands, execute_time as int) as int,
            ),
            final(self)@ == (GameStateView {
                scheduled_commands: old(self)@.scheduled_commands.skip(
                    due_count(old(self)@.scheduled_commands, execute_time as int) as int,
                ),
                ..old(self)@
            }),
            final(self).players == old(self).players,
    {
        self.scheduled_commands.take_due(execute_time)
    }

    /// Schedules the inputs of `commands`, bundle after bundle and input
    /// after input, each at its sampling time moved by its measured delay.
    pub fn schedule(&mut self, commands: &[CommandContent])
        requires
            old(self).scheduled_commands.wf(),
            forall|i: int| 0 <= i < commands.len() ==> (#[trigger] commands[i])@.schedulable(),
        ensures
            final(self).scheduled_commands.wf(),
            final(self)@ == (GameStateView {
                scheduled_commands: insert_all(
                    old(self)@.scheduled_commands,
                    batch_scheduled(batch_view(commands@)),
                ),
                ..old(self)@
            }),
            final(self).players == old(self).players,
    {
        let ghost q0 = self@.scheduled_commands;
        let ghost batch = batch_view(commands@);
        let mut i: usize = 0;
        while i < commands.len()
            invariant
                i <= commands.len(),
                batch == batch_view(commands@),
                self.scheduled_commands.wf(),
                forall|i: int| 0 <= i < commands.len() ==> (#[trigger] commands[i])@.schedulable(),
                self@ == (GameStateView {
                    scheduled_commands: insert_all(q0, batch_scheduled(batch.take(i as int))),
                    ..old(self)@
                }),
                self.players == old(self).players,
            decreases commands.len() - i,
        {
            let content = &commands[i];
            let bundle = &content.player_state_command;
            let ghost done = batch_scheduled(batch.take(i as int));
            let ghost these = content@.scheduled();
            let execute_at_timestamp: u64 = bundle.client_timestamp_micros
                + content.client_delay_micros;
            let client_dt_ms: u64 = bundle.dt_micros / 1000;
            let mut j: usize = 0;
            while j < bundle.commands.len()
                invariant
                    j <= bundle.commands.len(),
                    bundle == &content.player_state_command,
                    these == content@.scheduled(),
                    execute_at_timestamp == content@.execute_at(),
                    client_dt_ms == bundle.dt_micros / 1000,
                    self.scheduled_commands.wf(),
                    self@ == (GameStateView {
                        scheduled_commands: insert_all(q0, done + these.take(j as int)),
                        ..old(self)@
                    }),
                    self.players == old(self).players,
                decreases bundle.commands.len() - j,
            {
                let scheduled = ScheduledCommand {
                    execute_at_timestamp,
                    player_id: content.player_id,
                    client_dt_ms,
                    command: bundle.commands[j],
                };
                self.scheduled_commands.push(scheduled);
                proof {
                    let next = done + these.take(j + 1);
                    assert(next.drop_last() =~= done + these.take(j as int));
                }
                j += 1;
            }
            proof {
                assert(these.take(j as int) =~= these);
                assert(batch.take(i + 1).drop_last() =~= batch.take(i as int));
            }
            i += 1;
        }
        assert(batch.take(i as int) =~= batch);
    }

    /// Advances the world's clock by `dt_micros` up to the instant
    /// `end_tick`: schedules `commands`, splits the time that is to be
    /// consumed into substeps and empties the queue into the returned plan.
    /// The time left over, less than one substep, is kept for the next call.
    pub fn mutate(
        &mut self,
        commands: &[CommandContent],
        dt_micros: u64,
        client_player_id: Option<u32>,
        end_tick: u64,
    ) -> (plan: TickPlan)
        requires
            old(self).scheduled_commands.wf(),
            old(self).cached_dt_micros + dt_micros <= end_tick,
            forall|i: int| 0 <= i < commands.len() ==> (#[trigger] commands[i])@.schedulable(),
        ensures
            final(self).scheduled_commands.wf(),
            plan@ == tick_plan(
                insert_all(old(self)@.scheduled_commands, batch_scheduled(batch_view(commands@))),
                end_tick as int,
                old(self).cached_dt_micros + dt_micros,
                client_player_id,
            ),
            plan@.substeps.len() == (old(self).cached_dt_micros + dt_micros) / (
            FIXED_DT_MICROS as int),
            forall|k: int, i: int|
                #![trigger plan@.substeps[k].commands[i]]
                0 <= k < plan@.substeps.len() && 0 <= i < plan@.substeps[k].commands.len()
                    ==> plan@.substeps[k].commands[i].execute_at_timestamp
                    <= plan@.substeps[k].execute_time,
            final(self).cached_dt_micros < FIXED_DT_MICROS,
            final(self)@ == (GameStateView {
                cached_dt_micros: ((old(self).cached_dt_micros + dt_micros) % (
                FIXED_DT_MICROS as int)) as u64,
                scheduled_commands: Seq::empty(),
                ..old(self)@
            }),
            final(self).players == old(self).players,
    {
        let total: u64 = self.cached_dt_micros + dt_micros;
        self.schedule(commands);
        let ghost q = self@.scheduled_commands;
        let ghost end = end_tick as int;
        let ghost tot = total as int;
        let mut substeps: Vec<Substep> = Vec::new();
        let mut accumulator: u64 = total;
        let ghost mut k: int = 0;
        proof {
            assert(q.skip(0) =~= q);
        }
        while accumulator >= FIXED_DT_MICROS
            invariant
                0 <= k,
                total <= end_tick,
                end == end_tick,
                tot == total,
                ordered(q),
                accumulator + k * FIXED_DT_MICROS == total,
                self.scheduled_commands.wf(),
                self@ == (GameStateView {
                    scheduled_commands: q.skip(taken_before(q, end, tot, k)),
                    ..old(self)@
                }),
                self.players == old(self).players,
                0 <= taken_before(q, end, tot, k) <= q.len(),
                substeps_view(substeps@) == Seq::new(
                    k as nat,
                    |j: int| substep_at(q, end, tot, j),
                ),
            decreases accumulator,
        {
            let execute_time: u64 = end_tick - accumulator;
            let ghost before = substeps_view(substeps@);
            proof {
                lemma_taken_before(q, end, tot, k);
            }
            let due = self.execute_commands(execute_time);
            let substep = Substep { execute_time, commands: due };
            proof {
                let a = taken_before(q, end, tot, k);
                let b = taken_before(q, end, tot, k + 1);
                assert(q.skip(a).take(b - a) =~= q.subrange(a, b));
                assert(q.skip(a).skip(b - a) =~= q.skip(b));
            }
            substeps.push(substep);
            accumulator -= FIXED_DT_MICROS;
            proof {
                assert(substeps_view(substeps@) =~= before.push(
                    substep_at(q, end, tot, k),
                ));
                k = k + 1;
            }
        }
        proof {
            assert(k == tot / (FIXED_DT_MICROS as int) && accumulator == tot % (
            FIXED_DT_MICROS as int)) by (nonlinear_arith)
                requires
                    0 <= k,
                    0 <= accumulator < FIXED_DT_MICROS,
                    accumulator + k * FIXED_DT_MICROS == tot,
            ;
        }
        let late = self.scheduled_commands.drain();
        self.cached_dt_micros = accumulator;
        let plan = TickPlan { substeps, late, client_player_id };
        proof {
            assert forall|k: int, i: int|
                0 <= k < plan@.substeps.len() && 0 <= i
                    < plan@.substeps[k].commands.len() implies (
            #[trigger] plan@.substeps[k].commands[i]).execute_at_timestamp
                <= plan@.substeps[k].execute_time by {
                lemma_applied_when_due(q, end, tot, client_player_id, k, i);
            }
        }
        plan
    }

    /// Forgets the time left over and everything scheduled.
    pub fn clear_cache(&mut self)
        ensures
            final(self).scheduled_commands.wf(),
            final(self)@ == (GameStateView {
                cached_dt_micros: 0,
                scheduled_commands: Seq::empty(),
                ..old(self)@
            }),
            final(self).players == old(self).players,
    {
        self.cached_dt_micros = 0;
        self.scheduled_commands.clear();
    }
}

} // verus!
