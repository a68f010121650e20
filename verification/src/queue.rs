//! Bounded queues between the acceptor and the rest of the server: one
//! session queue per worker (multi-producer in the full server, single
//! consumer), and the signal channel an external controller uses to reach
//! the acceptor. All operations are non-blocking `try_` forms that fail on
//! a full or empty queue instead of waiting.

use vstd::prelude::*;

use crate::session::Session;

verus! {

/// An out-of-band control signal delivered to the acceptor.
#[derive(Clone, Copy, Debug, PartialEq, Eq, Structural)]
pub enum Signal {
    /// Flush request; a no-op inside the acceptor, fanned out to workers
    /// above this core.
    FlushAll,
    /// Terminate the acceptor loop.
    Shutdown,
}

/// The bounded signal channel from an external controller to the acceptor.
#[derive(Clone, Debug)]
pub struct SignalQueue {
    /// Pending signals, oldest first.
    pub items: Vec<Signal>,
    /// The bound on how many signals may be pending at once.
    pub capacity: usize,
}

impl SignalQueue {
    /// The queue never holds more than its capacity, and the capacity is
    /// positive.
    pub open spec fn wf(self) -> bool {
        &&& self.items@.len() <= self.capacity
        &&& self.capacity >= 1
    }

    /// An empty signal channel with the given bound.
    pub fn with_capacity(capacity: usize) -> (r: SignalQueue)
        requires
            capacity >= 1,
        ensures
            r.wf(),
            r.items@ == Seq::<Signal>::empty(),
            r.capacity == capacity,
    {
        SignalQueue { items: Vec::new(), capacity }
    }

    /// Appends a signal; fails exactly when the channel is full.
    pub fn try_send(&mut self, signal: Signal) -> (r: Result<(), ()>)
        requires
            old(self).wf(),
        ensures
            final(self).wf(),
            final(self).capacity == old(self).capacity,
            r is Ok <==> old(self).items@.len() < old(self).capacity,
            r is Ok ==> final(self).items@ == old(self).items@.push(signal),
            r is Err ==> final(self).items@ == old(self).items@,
    {
        if self.items.len() < self.capacity {
            self.items.push(signal);
            Ok(())
        } else {
            Err(())
        }
    }

    /// Pops the oldest pending signal; `None` exactly when none is pending.
    pub fn try_recv(&mut self) -> (r: Option<Signal>)
        requires
            old(self).wf(),
        ensures
            final(self).wf(),
            final(self).capacity == old(self).capacity,
            old(self).items@.len() == 0 ==> r is None && final(self).items@ == old(self).items@,
            old(self).items@.len() > 0 ==> r == Some(old(self).items@[0])
                && final(self).items@ == old(self).items@.remove(0),
    {
        if self.items.len() > 0 {
            Some(self.items.remove(0))
        } else {
            None
        }
    }
}

/// The pool of bounded session queues, one per worker.
#[derive(Clone, Debug)]
pub struct SessionQueues {
    /// One queue of dispatched sessions per worker, in worker-id order.
    pub queues: Vec<Vec<Session>>,
    /// The bound each worker's queue is held to.
    pub capacity: usize,
}

/// The number of sessions held across a pool of queues.
pub open spec fn sum_of_lens(qs: Seq<Vec<Session>>) -> int
    decreases qs.len(),
{
    if qs.len() == 0 {
        0int
    } else {
        sum_of_lens(qs.drop_last()) + qs.last()@.len()
    }
}

/// Replacing one queue changes the pool's total occupancy by exactly the
/// change in that queue's length.
pub proof fn lemma_sum_of_lens_update(qs: Seq<Vec<Session>>, i: int, q: Vec<Session>)
    requires
        0 <= i < qs.len(),
    ensures
        sum_of_lens(qs.update(i, q)) == sum_of_lens(qs) - qs[i]@.len() + q@.len(),
    decreases qs.len(),
{
    let updated = qs.update(i, q);
    if i == qs.len() - 1 {
        assert(updated.drop_last() =~= qs.drop_last());
    } else {
        assert(updated.drop_last() =~= qs.drop_last().update(i, q));
        lemma_sum_of_lens_update(qs.drop_last(), i, q);
    }
}

impl SessionQueues {
    /// There is at least one worker, the bound is positive, and no queue
    /// exceeds the bound.
    pub open spec fn wf(self) -> bool {
        &&& self.queues@.len() >= 1
        &&& self.capacity >= 1
        &&& forall|i: int| 0 <= i < self.queues@.len() ==> #[trigger] self.queues@[i]@.len() <= self.capacity
    }

    /// Whether worker `i`'s queue has room for one more session.
    pub open spec fn slot_open(self, i: int) -> bool {
        self.queues@[i]@.len() < self.capacity
    }

    /// Whether some worker's queue has room for one more session.
    pub open spec fn any_slot_open(self) -> bool {
        exists|i: int| 0 <= i < self.queues@.len() && self.slot_open(i)
    }

    /// `w` is the first queue with room in rotation order from `start`:
    /// the scan runs from `start` to the last worker, then wraps to the
    /// front.
    pub open spec fn rotation_first_open(self, start: int, w: int) -> bool {
        &&& 0 <= w < self.queues@.len()
        &&& self.slot_open(w)
        &&& (w >= start ==> forall|j: int| start <= j < w ==> !self.slot_open(j))
        &&& (w < start ==> (forall|j: int|
            start <= j < self.queues@.len() ==> !self.slot_open(j)) && (forall|j: int|
            0 <= j < w ==> !self.slot_open(j)))
    }

    /// One empty bounded queue per worker.
    pub fn with_capacity(workers: usize, capacity: usize) -> (r: SessionQueues)
        requires
            workers >= 1,
            capacity >= 1,
        ensures
            r.wf(),
            r.queues@.len() == workers,
            r.capacity == capacity,
            forall|i: int| 0 <= i < workers ==> #[trigger] r.queues@[i]@.len() == 0,
            sum_of_lens(r.queues@) == 0,
    {
        let mut queues: Vec<Vec<Session>> = Vec::new();
        let mut built: usize = 0;
        while built < workers
            invariant
                built == queues@.len(),
                built <= workers,
                forall|i: int| 0 <= i < built ==> #[trigger] queues@[i]@.len() == 0,
                sum_of_lens(queues@) == 0,
            decreases workers - built,
        {
            let ghost before = queues@;
            let q: Vec<Session> = Vec::new();
            queues.push(q);
            proof {
                assert(queues@.drop_last() =~= before);
            }
            built = built + 1;
        }
        SessionQueues { queues, capacity }
    }

    /// The number of worker queues in the pool.
    pub fn workers(&self) -> (r: usize)
        ensures
            r == self.queues@.len(),
    {
        self.queues.len()
    }

    /// Targets a specific worker; fails exactly when that worker's queue is
    /// full, handing the session back.
    pub fn try_send_to(&mut self, worker: usize, session: Session) -> (r: Result<(), Session>)
        requires
            old(self).wf(),
            worker < old(self).queues@.len(),
        ensures
            final(self).wf(),
            final(self).capacity == old(self).capacity,
            final(self).queues@.len() == old(self).queues@.len(),
            r is Ok <==> old(self).slot_open(worker as int),
            r is Ok ==> final(self).queues@[worker as int]@
                == old(self).queues@[worker as int]@.push(session)
                && sum_of_lens(final(self).queues@) == sum_of_lens(old(self).queues@) + 1,
            r matches Err(s) ==> s == session && final(self).queues@ == old(self).queues@,
            forall|i: int| 0 <= i < old(self).queues@.len() && i != worker
                ==> #[trigger] final(self).queues@[i] == old(self).queues@[i],
    {
        let room = {
            let q = &self.queues[worker];
            q.len() < self.capacity
        };
        if room {
            let ghost before = self.queues@;
            let mut q = self.queues.remove(worker);
            q.push(session);
            self.queues.insert(worker, q);
            proof {
                assert(self.queues@ =~= before.update(worker as int, q));
                lemma_sum_of_lens_update(before, worker as int, q);
            }
            Ok(())
        } else {
            Err(session)
        }
    }

    /// Places the session into the first non-full queue in rotation order
    /// from a uniform-random starting point: the scan runs from the start
    /// slot to the last worker, then wraps to the front. It fails only when
    /// every queue is full, handing the session back.
    pub fn try_send_any(&mut self, session: Session, pick: usize) -> (r: Result<usize, Session>)
        requires
            old(self).wf(),
        ensures
            final(self).wf(),
            final(self).capacity == old(self).capacity,
            final(self).queues@.len() == old(self).queues@.len(),
            r is Ok <==> old(self).any_slot_open(),
            r matches Ok(w) ==> {
                let start = (pick as int) % (old(self).queues@.len() as int);
                &&& old(self).rotation_first_open(start, w as int)
                &&& final(self).queues@[w as int]@ == old(self).queues@[w as int]@.push(session)
                &&& sum_of_lens(final(self).queues@) == sum_of_lens(old(self).queues@) + 1
                &&& forall|i: int| 0 <= i < old(self).queues@.len() && i != w
                    ==> #[trigger] final(self).queues@[i] == old(self).queues@[i]
            },
            r matches Err(s) ==> s == session && final(self).queues@ == old(self).queues@
                && forall|i: int| 0 <= i < old(self).queues@.len() ==> !old(self).slot_open(i),
    {
        let workers = self.queues.len();
        let start = pick % workers;
        let mut target: Option<usize> = None;

        let mut idx = start;
        while idx < workers
            invariant_except_break
                workers == self.queues@.len(),
                start < workers,
                start <= idx <= workers,
                target is None,
                forall|j: int| start <= j < idx ==> !self.slot_open(j),
            ensures
                target matches Some(w) ==> start <= w < workers && self.slot_open(w as int)
                    && forall|j: int| start <= j < w ==> !self.slot_open(j),
                target is None ==> forall|j: int| start <= j < workers ==> !self.slot_open(j),
            decreases workers - idx,
        {
            let open_here = {
                let q = &self.queues[idx];
                q.len() < self.capacity
            };
            proof {
                assert(open_here == self.slot_open(idx as int));
            }
            if open_here {
                target = Some(idx);
                break;
            } else {
                idx = idx + 1;
            }
        }

        if target.is_none() {
            let mut idx2: usize = 0;
            while idx2 < start
                invariant_except_break
                    workers == self.queues@.len(),
                    start < workers,
                    idx2 <= start,
                    target is None,
                    forall|j: int| 0 <= j < idx2 ==> !self.slot_open(j),
                ensures
                    target matches Some(w) ==> w < start && self.slot_open(w as int)
                        && forall|j: int| 0 <= j < w ==> !self.slot_open(j),
                    target is None ==> forall|j: int| 0 <= j < start ==> !self.slot_open(j),
                decreases start - idx2,
            {
                let open_here = {
                    let q = &self.queues[idx2];
                    q.len() < self.capacity
                };
                proof {
                    assert(open_here == self.slot_open(idx2 as int));
                }
                if open_here {
                    target = Some(idx2);
                    break;
                } else {
                    idx2 = idx2 + 1;
                }
            }
        }

        match target {
            Some(w) => {
                let ghost before = self.queues@;
                let mut q = self.queues.remove(w);
                q.push(session);
                self.queues.insert(w, q);
                proof {
                    assert(self.queues@ =~= before.update(w as int, q));
                    lemma_sum_of_lens_update(before, w as int, q);
                }
                Ok(w)
            }
            None => Err(session),
        }
    }
}

} // verus!
