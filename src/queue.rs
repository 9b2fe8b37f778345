use vstd::prelude::*;

use std::collections::VecDeque;

verus! {

/// One unit of background work.
#[derive(Clone, Debug, PartialEq, Eq)]
pub enum WorkItem {
    /// Fetch a channel's videos and store the new ones.
    UpdateCheck { channel_id: i64 },
    /// Download a video's bytes.
    Download { video_id: i64 },
    /// Fetch an image into the thumbnail cache.
    ThumbnailCache { url: String },
}

/// Why an item was not taken in.
#[derive(Clone, Copy, Debug, PartialEq, Eq, Structural)]
pub enum EnqueueError {
    /// `stop` was called: the queue takes no more work.
    Stopped,
    /// Every ticket number has been handed out.
    Exhausted,
}

/// What a worker does next.
#[derive(Clone, Debug, PartialEq, Eq)]
pub enum WorkerAction {
    /// Run this item, then report its ticket as complete.
    Run { ticket: u64, item: WorkItem },
    /// Nothing is queued yet; wait for an enqueue or for `stop`.
    Wait,
    /// Nothing is queued and none will be: leave.
    Exit,
}

/// The intake queue shared by the workers. Each accepted item gets a ticket,
/// its position in the order of submission; workers take items first in,
/// first out, and report each ticket back when its item has run.
pub struct WorkQueue {
    pending: VecDeque<WorkItem>,
    in_flight: Vec<u64>,
    submitted: u64,
    taken: u64,
    accepting: bool,
    log: Ghost<Seq<WorkItem>>,
    done: Ghost<Set<nat>>,
}

proof fn lemma_push_contains(s: Seq<u64>, v: u64, x: u64)
    ensures
        s.push(v).contains(x) <==> (s.contains(x) || x == v),
{
    let t = s.push(v);
    if s.contains(x) {
        let k = choose|k: int| 0 <= k < s.len() && s[k] == x;
        assert(t[k] == x);
    }
    if x == v {
        assert(t[s.len() as int] == x);
    }
    if t.contains(x) && x != v {
        let k = choose|k: int| 0 <= k < t.len() && t[k] == x;
        assert(s[k] == x);
    }
}

proof fn lemma_swap_remove(before: Seq<u64>, i: int)
    requires
        0 <= i < before.len(),
        before.no_duplicates(),
    ensures
        ({
            let after = before.update(i, before.last()).drop_last();
            &&& after.no_duplicates()
            &&& forall|x: u64| after.contains(x) <==> (before.contains(x) && x != before[i])
        }),
{
    let after = before.update(i, before.last()).drop_last();
    let n = before.len() - 1;
    assert forall|a: int, b: int| 0 <= a < after.len() && 0 <= b < after.len() && a != b implies after[a]
        != after[b] by {
        let ia = if a == i { n } else { a };
        let ib = if b == i { n } else { b };
        assert(after[a] == before[ia]);
        assert(after[b] == before[ib]);
    }
    assert forall|x: u64| after.contains(x) <==> (before.contains(x) && x != before[i]) by {
        if before.contains(x) && x != before[i] {
            let k = choose|k: int| 0 <= k < before.len() && before[k] == x;
            if k == n {
                assert(after[i] == x);
            } else {
                assert(after[k] == x);
            }
        }
        if after.contains(x) {
            let k = choose|k: int| 0 <= k < after.len() && after[k] == x;
            if k == i {
                assert(before[n] == x);
                assert(n != i);
            } else {
                assert(before[k] == x);
                assert(k != i);
            }
        }
    }
}

impl WorkQueue {
    /// The queue's bookkeeping is consistent: the waiting items are the
    /// untaken tail of the log, and every taken ticket is either in flight or
    /// done, not both.
    pub closed spec fn wf(&self) -> bool {
        &&& self.submitted as int == self.log@.len()
        &&& self.taken <= self.submitted
        &&& self.pending@ == self.log@.subrange(self.taken as int, self.submitted as int)
        &&& self.in_flight@.no_duplicates()
        &&& forall|i: int| 0 <= i < self.in_flight@.len() ==> self.in_flight@[i] < self.taken
        &&& forall|t: nat| #[trigger] self.done@.contains(t) ==> t < self.taken
        &&& forall|t: nat|
            t < self.taken ==> (#[trigger] self.done@.contains(t) <==> !self.in_flight@.contains(
                t as u64,
            ))
    }

    /// Every item accepted so far, in order; an item's ticket is its index.
    pub closed spec fn log(&self) -> Seq<WorkItem> {
        self.log@
    }

    /// How many items have been handed to workers: tickets below it.
    pub closed spec fn taken(&self) -> nat {
        self.taken as nat
    }

    /// The items waiting for a worker, first in first.
    pub open spec fn pending(&self) -> Seq<WorkItem> {
        self.log().subrange(self.taken() as int, self.log().len() as int)
    }

    /// The tickets of items handed to a worker and not yet reported complete.
    pub closed spec fn in_flight(&self) -> Set<nat> {
        Set::new(|t: nat| t <= u64::MAX && self.in_flight@.contains(t as u64))
    }

    /// The tickets of items that have run to completion.
    pub closed spec fn done(&self) -> Set<nat> {
        self.done@
    }

    /// Whether the queue still takes work.
    pub closed spec fn accepting(&self) -> bool {
        self.accepting
    }

    /// A consistent queue has handed out no more items than it took in, and
    /// at most one per ticket number.
    pub proof fn lemma_wf_bounds(&self)
        requires
            self.wf(),
        ensures
            self.taken() <= self.log().len(),
            self.log().len() <= u64::MAX,
    {
    }

    /// Nothing waits and nothing runs.
    pub open spec fn drained(&self) -> bool {
        self.pending().len() == 0 && self.in_flight().is_empty()
    }

    /// An empty queue that takes work.
    pub fn new() -> (r: WorkQueue)
        ensures
            r.wf(),
            r.log() == Seq::<WorkItem>::empty(),
            r.taken() == 0,
            r.in_flight().is_empty(),
            r.done().is_empty(),
            r.accepting(),
    {
        let r = WorkQueue {
            pending: VecDeque::new(),
            in_flight: Vec::new(),
            submitted: 0,
            taken: 0,
            accepting: true,
            log: Ghost(Seq::empty()),
            done: Ghost(Set::empty()),
        };
        assert(r.in_flight() =~= Set::empty());
        assert(r.pending@ =~= r.log@.subrange(0, 0));
        r
    }

    /// Takes in an item, at the back of the queue, and returns its ticket.
    /// Refused once `stop` was called.
    pub fn enqueue(&mut self, item: WorkItem) -> (r: Result<u64, EnqueueError>)
        requires
            old(self).wf(),
        ensures
            final(self).wf(),
            !old(self).accepting() ==> r == Err::<u64, EnqueueError>(EnqueueError::Stopped),
            old(self).accepting() && old(self).log().len() < u64::MAX ==> r == Ok::<
                u64,
                EnqueueError,
            >(old(self).log().len() as u64),
            old(self).accepting() && old(self).log().len() >= u64::MAX ==> r == Err::<
                u64,
                EnqueueError,
            >(EnqueueError::Exhausted),
            r is Ok ==> final(self).log() == old(self).log().push(item),
            r is Err ==> final(self).log() == old(self).log(),
            final(self).taken() == old(self).taken(),
            final(self).in_flight() == old(self).in_flight(),
            final(self).done() == old(self).done(),
            final(self).accepting() == old(self).accepting(),
    {
        if !self.accepting {
            return Err(EnqueueError::Stopped);
        }
        if self.submitted == u64::MAX {
            return Err(EnqueueError::Exhausted);
        }
        let ticket = self.submitted;
        proof {
            self.log@ = self.log@.push(item);
        }
        self.pending.push_back(item);
        self.submitted = self.submitted + 1;
        proof {
            assert(self.pending@ =~= self.log@.subrange(self.taken as int, self.submitted as int));
        }
        Ok(ticket)
    }

    /// Hands the first waiting item to a worker, with its ticket; a worker
    /// that gets `Exit` leaves, one that gets `Wait` asks again later.
    pub fn next_action(&mut self) -> (r: WorkerAction)
        requires
            old(self).wf(),
        ensures
            final(self).wf(),
            old(self).pending().len() > 0 ==> r == (WorkerAction::Run {
                ticket: old(self).taken() as u64,
                item: old(self).pending()[0],
            }),
            old(self).pending().len() == 0 && old(self).accepting() ==> r == WorkerAction::Wait,
            old(self).pending().len() == 0 && !old(self).accepting() ==> r == WorkerAction::Exit,
            final(self).log() == old(self).log(),
            final(self).done() == old(self).done(),
            final(self).accepting() == old(self).accepting(),
            r is Run ==> !old(self).done().contains(old(self).taken()) && !old(
                self,
            ).in_flight().contains(old(self).taken()),
            r is Run ==> final(self).taken() == old(self).taken() + 1 && final(self).in_flight()
                == old(self).in_flight().insert(old(self).taken()),
            !(r is Run) ==> final(self).taken() == old(self).taken() && final(self).in_flight()
                == old(self).in_flight(),
    {
        match self.pending.pop_front() {
            None => {
                if self.accepting {
                    WorkerAction::Wait
                } else {
                    WorkerAction::Exit
                }
            },
            Some(item) => {
                let ticket = self.taken;
                let ghost old_in_flight = self.in_flight();
                proof {
                    if self.in_flight@.contains(ticket) {
                        let k = choose|k: int| 0 <= k < self.in_flight@.len() && self.in_flight@[k] == ticket;
                    }
                }
                proof {
                    assert(!self.in_flight@.contains(ticket));
                }
                self.in_flight.push(ticket);
                self.taken = self.taken + 1;
                proof {
                    assert(self.pending@ =~= self.log@.subrange(
                        self.taken as int,
                        self.submitted as int,
                    ));
                    assert forall|x: u64| self.in_flight@.contains(x) <==> (old(
                        self,
                    ).in_flight@.contains(x) || x == ticket) by {
                        lemma_push_contains(old(self).in_flight@, ticket, x);
                    }
                    assert forall|t: nat| #[trigger] self.in_flight().contains(t) <==> old_in_flight.insert(ticket as nat).contains(t) by {
                        if t <= u64::MAX {
                            lemma_push_contains(old(self).in_flight@, ticket, t as u64);
                        }
                    }
                    assert(self.in_flight() =~= old_in_flight.insert(ticket as nat));
                }
                WorkerAction::Run { ticket, item }
            },
        }
    }

    /// Records that the item with this ticket has run. Returns whether the
    /// ticket was in flight; one that was not changes nothing.
    pub fn complete(&mut self, ticket: u64) -> (r: bool)
        requires
            old(self).wf(),
        ensures
            final(self).wf(),
            r == old(self).in_flight().contains(ticket as nat),
            r ==> final(self).in_flight() == old(self).in_flight().remove(ticket as nat),
            r ==> final(self).done() == old(self).done().insert(ticket as nat),
            !r ==> final(self).in_flight() == old(self).in_flight() && final(self).done() == old(
                self,
            ).done(),
            final(self).log() == old(self).log(),
            final(self).taken() == old(self).taken(),
            final(self).accepting() == old(self).accepting(),
    {
        let mut i: usize = 0;
        while i < self.in_flight.len()
            invariant
                i <= self.in_flight@.len(),
                forall|k: int| 0 <= k < i ==> self.in_flight@[k] != ticket,
                *self == *old(self),
                self.wf(),
            decreases self.in_flight@.len() - i,
        {
            if self.in_flight[i] == ticket {
                let ghost before = self.in_flight@;
                let ghost old_set = self.in_flight();
                proof {
                    lemma_swap_remove(before, i as int);
                }
                self.in_flight.swap_remove(i);
                proof {
                    self.done@ = self.done@.insert(ticket as nat);
                    assert forall|t: nat| #[trigger] self.in_flight().contains(t) <==> old_set.remove(ticket as nat).contains(t) by {
                        if t <= u64::MAX {
                            assert(self.in_flight@.contains(t as u64) <==> (before.contains(t as u64) && t as u64 != ticket));
                        }
                    }
                    assert(self.in_flight() =~= old_set.remove(ticket as nat));
                }
                return true;
            }
            i = i + 1;
        }
        proof {
            assert(!self.in_flight@.contains(ticket));
        }
        false
    }

    /// Takes no more work; what was accepted still runs.
    pub fn stop(&mut self)
        requires
            old(self).wf(),
        ensures
            final(self).wf(),
            !final(self).accepting(),
            final(self).log() == old(self).log(),
            final(self).taken() == old(self).taken(),
            final(self).in_flight() == old(self).in_flight(),
            final(self).done() == old(self).done(),
    {
        self.accepting = false;
    }

    /// Whether a caller of `stop` may go on: the queue is stopped, nothing
    /// waits and nothing runs.
    pub fn is_finished(&self) -> (r: bool)
        requires
            self.wf(),
        ensures
            r == (!self.accepting() && self.drained()),
    {
        proof {
            assert(self.in_flight@.len() == 0 ==> self.in_flight() =~= Set::empty());
            if self.in_flight@.len() > 0 {
                assert(self.in_flight().contains(self.in_flight@[0] as nat));
            }
        }
        !self.accepting && self.pending.len() == 0 && self.in_flight.len() == 0
    }
}

/// Once a queue is drained, every item it ever accepted has run: each ticket
/// handed out was reported complete, and none is waiting or running. With
/// `next_action` handing out each ticket once and `complete` taking each in
/// flight ticket once, every accepted item runs exactly once.
pub proof fn lemma_drained_all_ran(q: &WorkQueue)
    requires
        q.wf(),
        q.drained(),
    ensures
        q.taken() == q.log().len(),
        q.done() == Set::new(|t: nat| t < q.log().len()),
{
    assert forall|t: nat| q.done().contains(t) <==> t < q.log().len() by {
        if t < q.taken && q.in_flight@.contains(t as u64) {
            assert(q.in_flight().contains(t));
        }
    }
    assert(q.done() =~= Set::new(|t: nat| t < q.log().len()));
}

} // verus!
