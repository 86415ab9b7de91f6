//! A queue that holds each payload back until its release time.
//!
//! A client puts what it receives and what it sends through such a queue
//! to imitate network latency. Payloads leave in the order they came.

use std::collections::VecDeque;
use vstd::prelude::*;

verus! {

/// A payload and the instant from which it may leave.
#[derive(Debug)]
pub struct Delayed<T> {
    /// Microseconds on the clock of the queue's owner.
    pub release_at: u64,
    pub payload: T,
}

/// Number of entries at the front of `q` that may leave at instant `now`.
///
/// An entry waits for the ones before it, also where its own release time
/// has come.
pub open spec fn ready_count<T>(q: Seq<Delayed<T>>, now: u64) -> nat
    decreases q.len(),
{
    if q.len() == 0 || q[0].release_at > now {
        0
    } else {
        1 + ready_count(q.drop_first(), now)
    }
}

/// The payloads of `q`, in order.
pub open spec fn payloads<T>(q: Seq<Delayed<T>>) -> Seq<T> {
    q.map_values(|d: Delayed<T>| d.payload)
}

/// The instant from which something that entered at `now_micros` may leave
/// when the delay is `delay_millis`.
pub open spec fn release_time(now_micros: u64, delay_millis: u64) -> int {
    now_micros + delay_millis * 1000
}

/// The ready entries are a prefix that has all come due.
pub proof fn lemma_ready_count<T>(q: Seq<Delayed<T>>, now: u64)
    ensures
        ready_count(q, now) <= q.len(),
        forall|i: int| 0 <= i < ready_count(q, now) ==> (#[trigger] q[i]).release_at <= now,
        ready_count(q, now) < q.len() ==> q[ready_count(q, now) as int].release_at > now,
    decreases q.len(),
{
    if q.len() > 0 && q[0].release_at <= now {
        let rest = q.drop_first();
        lemma_ready_count(rest, now);
        assert forall|i: int| 0 <= i < ready_count(q, now) implies (#[trigger] q[i]).release_at
            <= now by {
            if i > 0 {
                assert(q[i] == rest[i - 1]);
            }
        }
    }
}

/// The ready entries counted from position `k` on.
pub proof fn lemma_ready_count_from<T>(q: Seq<Delayed<T>>, now: u64, k: int)
    requires
        0 <= k <= q.len(),
        forall|i: int| 0 <= i < k ==> (#[trigger] q[i]).release_at <= now,
    ensures
        ready_count(q, now) == k + ready_count(q.skip(k), now),
    decreases k,
{
    if k == 0 {
        assert(q.skip(0) == q);
    } else {
        lemma_ready_count_from(q, now, k - 1);
        let tail = q.skip(k - 1);
        assert(tail.drop_first() == q.skip(k));
    }
}

/// Where every entry was put in with the same delay and the clock never
/// ran backwards, release times never decrease, so that an entry leaves as
/// soon as its own release time has come.
pub proof fn lemma_ready_when_due<T>(q: Seq<Delayed<T>>, now: u64, i: int)
    requires
        forall|a: int, b: int|
            0 <= a <= b < q.len() ==> (#[trigger] q[a]).release_at <= (#[trigger] q[b]).release_at,
        0 <= i < q.len(),
    ensures
        i < ready_count(q, now) <==> q[i].release_at <= now,
{
    lemma_ready_count(q, now);
}

/// A first-in, first-out queue of payloads with release times.
#[derive(Debug)]
pub struct DelayQueue<T> {
    items: VecDeque<Delayed<T>>,
}

impl<T> View for DelayQueue<T> {
    type V = Seq<Delayed<T>>;

    closed spec fn view(&self) -> Seq<Delayed<T>> {
        self.items@
    }
}

impl<T> DelayQueue<T> {
    /// The empty queue.
    pub fn new() -> (q: DelayQueue<T>)
        ensures
            q@ == Seq::<Delayed<T>>::empty(),
    {
        DelayQueue { items: VecDeque::new() }
    }

    /// Number of payloads held back.
    pub fn len(&self) -> (n: usize)
        ensures
            n == self@.len(),
    {
        self.items.len()
    }

    /// Puts `payload` in at instant `now_micros`, to be held back for
    /// `delay_millis`.
    pub fn push(&mut self, now_micros: u64, delay_millis: u64, payload: T)
        requires
            release_time(now_micros, delay_millis) <= u64::MAX,
        ensures
            final(self)@ == old(self)@.push(
                Delayed { release_at: release_time(now_micros, delay_millis) as u64, payload },
            ),
    {
        let release_at: u64 = now_micros + delay_millis * 1000;
        self.items.push_back(Delayed { release_at, payload });
    }

    /// Takes out, in order, every payload that may leave at `now_micros`.
    pub fn pop_ready(&mut self, now_micros: u64) -> (ready: Vec<T>)
        ensures
            ready@ == payloads(old(self)@.take(ready_count(old(self)@, now_micros) as int)),
            final(self)@ == old(self)@.skip(ready_count(old(self)@, now_micros) as int),
    {
        let ghost before = self@;
        let mut ready: Vec<T> = Vec::new();
        loop
            invariant
                ready@.len() <= before.len(),
                ready@ == payloads(before.take(ready@.len() as int)),
                self@ == before.skip(ready@.len() as int),
                forall|i: int|
                    0 <= i < ready@.len() ==> (#[trigger] before[i]).release_at <= now_micros,
            ensures
                ready@.len() == ready_count(before, now_micros),
                ready@ == payloads(before.take(ready@.len() as int)),
                self@ == before.skip(ready@.len() as int),
            decreases self@.len(),
        {
            proof {
                lemma_ready_count_from(before, now_micros, ready@.len() as int);
            }
            if self.items.len() == 0 || self.items[0].release_at > now_micros {
                break ;
            }
            match self.items.pop_front() {
                Some(front) => ready.push(front.payload),
                None => {},
            }
        }
        ready
    }

    /// Takes out every payload that may leave at `now_micros` and hands
    /// back the one that came last among them; the ones before it are
    /// dropped.
    pub fn pop_latest(&mut self, now_micros: u64) -> (latest: Option<T>)
        ensures
            final(self)@ == old(self)@.skip(ready_count(old(self)@, now_micros) as int),
            latest == if ready_count(old(self)@, now_micros) == 0 {
                None
            } else {
                Some(old(self)@[ready_count(old(self)@, now_micros) - 1].payload)
            },
    {
        proof {
            lemma_ready_count(self@, now_micros);
        }
        let mut ready = self.pop_ready(now_micros);
        ready.pop()
    }
}

} // verus!
