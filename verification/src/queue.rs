//! The queue of scheduled inputs, earliest first.

use crate::command::ScheduledCommand;
use std::collections::VecDeque;
use vstd::prelude::*;

verus! {

/// Whether the instants of `q` never decrease from front to back.
pub open spec fn ordered(q: Seq<ScheduledCommand>) -> bool {
    forall|i: int, j: int|
        0 <= i <= j < q.len() ==> q[i].execute_at_timestamp <= q[j].execute_at_timestamp
}

/// Number of entries at the front of `q` that are due at instant `t`.
///
/// For an ordered `q` these are all the entries due at `t`.
pub open spec fn due_count(q: Seq<ScheduledCommand>, t: int) -> nat
    decreases q.len(),
{
    if q.len() == 0 || q[0].execute_at_timestamp > t {
        0
    } else {
        1 + due_count(q.drop_first(), t)
    }
}

/// `q` with `c` put behind every entry that is due no later than `c`.
///
/// Entries with equal instants therefore leave in the order they came.
pub open spec fn inserted(q: Seq<ScheduledCommand>, c: ScheduledCommand) -> Seq<ScheduledCommand> {
    q.insert(due_count(q, c.execute_at_timestamp as int) as int, c)
}

/// `due_count` never exceeds the length, everything before it is due, and
/// the entry at it, if any, is not.
pub proof fn lemma_due_count(q: Seq<ScheduledCommand>, t: int)
    ensures
        due_count(q, t) <= q.len(),
        forall|i: int| 0 <= i < due_count(q, t) ==> (#[trigger] q[i]).execute_at_timestamp <= t,
        due_count(q, t) < q.len() ==> q[due_count(q, t) as int].execute_at_timestamp > t,
    decreases q.len(),
{
    if q.len() > 0 && q[0].execute_at_timestamp <= t {
        let rest = q.drop_first();
        lemma_due_count(rest, t);
        assert forall|i: int| 0 <= i < due_count(q, t) implies (#[trigger] q[i]).execute_at_timestamp
            <= t by {
            if i > 0 {
                assert(q[i] == rest[i - 1]);
            }
        }
    }
}

/// In an ordered queue nothing behind the due entries is due.
pub proof fn lemma_due_count_ordered(q: Seq<ScheduledCommand>, t: int)
    requires
        ordered(q),
    ensures
        forall|i: int|
            due_count(q, t) <= i < q.len() ==> (#[trigger] q[i]).execute_at_timestamp > t,
{
    lemma_due_count(q, t);
}

/// The due entries of `q` counted from position `k` on.
pub proof fn lemma_due_count_from(q: Seq<ScheduledCommand>, t: int, k: int)
    requires
        0 <= k <= q.len(),
        forall|i: int| 0 <= i < k ==> (#[trigger] q[i]).execute_at_timestamp <= t,
    ensures
        due_count(q, t) == k + due_count(q.skip(k), t),
    decreases k,
{
    if k == 0 {
        assert(q.skip(0) == q);
    } else {
        lemma_due_count_from(q, t, k - 1);
        let tail = q.skip(k - 1);
        assert(tail.drop_first() == q.skip(k));
    }
}

/// Inserting keeps the order.
pub proof fn lemma_inserted_ordered(q: Seq<ScheduledCommand>, c: ScheduledCommand)
    requires
        ordered(q),
    ensures
        ordered(inserted(q, c)),
        inserted(q, c).len() == q.len() + 1,
        inserted(q, c).to_multiset() == q.to_multiset().insert(c),
{
    let t = c.execute_at_timestamp as int;
    let k = due_count(q, t) as int;
    lemma_due_count(q, t);
    vstd::seq_lib::to_multiset_insert(q, k, c);
}

/// A queue of scheduled inputs that hands them out earliest first, and in
/// arrival order among equal instants.
#[derive(Debug)]
pub struct CommandQueue {
    items: VecDeque<ScheduledCommand>,
}

impl View for CommandQueue {
    type V = Seq<ScheduledCommand>;

    closed spec fn view(&self) -> Seq<ScheduledCommand> {
        self.items@
    }
}

impl CommandQueue {
    /// Whether the queue is in order; every queue this module hands out is.
    pub open spec fn wf(&self) -> bool {
        ordered(self@)
    }

    /// The empty queue.
    pub fn new() -> (q: CommandQueue)
        ensures
            q.wf(),
            q@ == Seq::<ScheduledCommand>::empty(),
    {
        CommandQueue { items: VecDeque::new() }
    }

    /// Number of waiting inputs.
    pub fn len(&self) -> (n: usize)
        ensures
            n == self@.len(),
    {
        self.items.len()
    }

    /// Whether nothing waits.
    pub fn is_empty(&self) -> (b: bool)
        ensures
            b == (self@.len() == 0),
    {
        self.items.len() == 0
    }

    /// Schedules `c`.
    pub fn push(&mut self, c: ScheduledCommand)
        requires
            old(self).wf(),
        ensures
            final(self).wf(),
            final(self)@ == inserted(old(self)@, c),
    {
        let t: u64 = c.execute_at_timestamp;
        let n: usize = self.items.len();
        let mut k: usize = 0;
        while k < n && self.items[k].execute_at_timestamp <= t
            invariant
                n == self.items@.len(),
                k <= n,
                forall|i: int| 0 <= i < k ==> (#[trigger] self.items@[i]).execute_at_timestamp <= t,
            decreases n - k,
        {
            k += 1;
        }
        proof {
            lemma_due_count_from(self.items@, t as int, k as int);
        }
        self.items.insert(k, c);
    }

    /// The input that leaves next, if any.
    pub fn peek(&self) -> (front: Option<ScheduledCommand>)
        ensures
            front == if self@.len() == 0 {
                None
            } else {
                Some(self@[0])
            },
    {
        if self.items.len() == 0 {
            None
        } else {
            Some(self.items[0])
        }
    }

    /// Takes out the input that leaves next, if any.
    pub fn pop(&mut self) -> (front: Option<ScheduledCommand>)
        requires
            old(self).wf(),
        ensures
            final(self).wf(),
            front == if old(self)@.len() == 0 {
                None
            } else {
                Some(old(self)@[0])
            },
            final(self)@ == if old(self)@.len() == 0 {
                old(self)@
            } else {
                old(self)@.drop_first()
            },
    {
        let front = self.items.pop_front();
        front
    }

    /// Takes out, in order, every input that is due at `execute_time`.
    pub fn take_due(&mut self, execute_time: u64) -> (due: Vec<ScheduledCommand>)
        requires
            old(self).wf(),
        ensures
            final(self).wf(),
            due@ == old(self)@.take(due_count(old(self)@, execute_time as int) as int),
            final(self)@ == old(self)@.skip(due_count(old(self)@, execute_time as int) as int),
    {
        let ghost before = self@;
        let mut due: Vec<ScheduledCommand> = Vec::new();
        loop
            invariant
                self.wf(),
                due@.len() <= before.len(),
                due@ == before.take(due@.len() as int),
                self@ == before.skip(due@.len() as int),
                forall|i: int|
                    0 <= i < due@.len() ==> (#[trigger] before[i]).execute_at_timestamp
                        <= execute_time,
            ensures
                due@.len() == due_count(before, execute_time as int),
            decreases self@.len(),
        {
            proof {
                lemma_due_count_from(before, execute_time as int, due@.len() as int);
            }
            match self.peek() {
                Some(front) if front.execute_at_timestamp <= execute_time => {
                    let _ = self.pop();
                    due.push(front);
                },
                _ => {
                    break ;
                },
            }
        }
        due
    }

    /// Takes out every waiting input, in order.
    pub fn drain(&mut self) -> (all: Vec<ScheduledCommand>)
        requires
            old(self).wf(),
        ensures
            final(self).wf(),
            all@ == old(self)@,
            final(self)@ == Seq::<ScheduledCommand>::empty(),
    {
        let ghost before = self@;
        let mut all: Vec<ScheduledCommand> = Vec::new();
        while self.items.len() > 0
            invariant
                self.wf(),
                all@.len() <= before.len(),
                all@ == before.take(all@.len() as int),
                self@ == before.skip(all@.len() as int),
            decreases self@.len(),
        {
            match self.pop() {
                Some(front) => all.push(front),
                None => {},
            }
        }
        all
    }

    /// Drops every waiting input.
    pub fn clear(&mut self)
        ensures
            final(self).wf(),
            final(self)@ == Seq::<ScheduledCommand>::empty(),
    {
        self.items.clear();
    }
}

} // verus!
