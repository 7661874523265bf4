use std::collections::VecDeque;
use vstd::prelude::*;

use crate::message::{lemma_terminates_concat, lemma_terminates_signals, terminate_signals, terminates, Message};

verus! {

/// The ordered queue of messages between the pool and its workers.
///
/// Every message sent is appended at the back; every message taken comes
/// off the front and is handed to exactly one taker. Besides what is still
/// queued, the queue records (as ghost state) everything already taken, so
/// that the whole history of the channel is `sent() == delivered() + pending()`.
pub struct Dispatch<J> {
    queue: VecDeque<Message<J>>,
    taken: Ghost<Seq<Message<J>>>,
}

impl<J> Dispatch<J> {
    /// The messages sent and not yet taken, oldest first.
    pub closed spec fn pending(&self) -> Seq<Message<J>> {
        self.queue@
    }

    /// The messages already taken, in the order they were taken.
    pub closed spec fn delivered(&self) -> Seq<Message<J>> {
        self.taken@
    }

    /// Every message ever sent on this queue, in send order.
    pub open spec fn sent(&self) -> Seq<Message<J>> {
        self.delivered() + self.pending()
    }

    /// An empty queue on which nothing has been sent.
    pub fn new() -> (r: Self)
        ensures
            r.pending() == Seq::<Message<J>>::empty(),
            r.delivered() == Seq::<Message<J>>::empty(),
    {
        Dispatch { queue: VecDeque::new(), taken: Ghost(Seq::empty()) }
    }

    /// The number of messages waiting to be taken.
    pub fn len(&self) -> (r: usize)
        ensures
            r == self.pending().len(),
    {
        self.queue.len()
    }

    /// Appends `m` behind every message sent before it.
    pub fn send(&mut self, m: Message<J>)
        ensures
            final(self).pending() == old(self).pending().push(m),
            final(self).delivered() == old(self).delivered(),
            final(self).sent() == old(self).sent().push(m),
    {
        self.queue.push_back(m);
        proof {
            assert(self.sent() =~= old(self).sent().push(m));
        }
    }

    /// Takes the oldest pending message, if any. A message taken is recorded
    /// as delivered and never handed out again.
    pub fn take(&mut self) -> (r: Option<Message<J>>)
        ensures
            old(self).pending().len() == 0 <==> r is None,
            final(self).sent() == old(self).sent(),
            r is None ==> final(self).pending() == old(self).pending()
                && final(self).delivered() == old(self).delivered(),
            r is Some ==> {
                &&& r->Some_0 == old(self).pending()[0]
                &&& final(self).pending() == old(self).pending().drop_first()
                &&& final(self).delivered() == old(self).delivered().push(r->Some_0)
            },
    {
        let r = self.queue.pop_front();
        match r {
            Some(m) => {
                proof {
                    self.taken@ = self.taken@.push(m);
                    assert(self.sent() =~= old(self).sent());
                }
                Some(m)
            },
            None => None,
        }
    }
}

} // verus!

verus! {

/// Messages are taken in the order they were sent, each exactly once: the
/// `k`-th message taken is the `k`-th message sent, and a sent message is
/// either among those taken or among those pending, never both.
pub proof fn lemma_fifo<J>(d: &Dispatch<J>)
    ensures
        d.delivered().len() <= d.sent().len(),
        forall|k: int| 0 <= k < d.delivered().len() ==> #[trigger] d.delivered()[k] == d.sent()[k],
        forall|k: int|
            0 <= k < d.pending().len() ==> #[trigger] d.pending()[k] == d.sent()[d.delivered().len() + k],
{
}

/// Teardown queues one termination signal per worker behind the submitted
/// jobs. Once that many signals have been taken (every worker leaves its loop
/// on the first signal it takes), nothing is pending any more: every job was
/// taken exactly once, in submission order, before the signals. (A pool has
/// at least one worker, so at least one signal is sent.)
pub proof fn lemma_teardown_drains<J>(d: &Dispatch<J>, jobs: Seq<Message<J>>, n: nat)
    requires
        n > 0,
        terminates(jobs) == 0,
        d.sent() == jobs + terminate_signals::<J>(n),
        terminates(d.delivered()) == n,
    ensures
        d.pending().len() == 0,
        d.delivered() == jobs + terminate_signals::<J>(n),
{
    lemma_terminates_concat(jobs, terminate_signals::<J>(n));
    lemma_terminates_signals::<J>(n);
    lemma_terminates_concat(d.delivered(), d.pending());
    if d.pending().len() > 0 {
        // The last message sent is a signal that is still pending.
        let p = d.pending();
        assert(p.last() == d.sent().last());
        assert(d.sent().last() == terminate_signals::<J>(n)[n - 1]);
        lemma_terminates_concat(p.drop_last(), seq![p.last()]);
        assert(p.drop_last() + seq![p.last()] =~= p);
        assert(terminates(seq![p.last()]) == 1) by {
            assert(seq![p.last()].drop_last() =~= Seq::<Message<J>>::empty());
        }
        assert(false);
    }
    assert(d.delivered() =~= d.sent());
}

} // verus!
