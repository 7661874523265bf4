use vstd::prelude::*;

use crate::dispatch::Dispatch;
use crate::message::{terminate_signals, Message};

verus! {

/// One background worker as the pool sees it: an identifier, and the handle
/// of its thread until that thread has been joined.
pub struct Worker<H> {
    id: usize,
    thread: Option<H>,
}

impl<H> Worker<H> {
    /// The worker's identifier.
    pub closed spec fn ident(&self) -> usize {
        self.id
    }

    /// The handle of the worker's thread; `None` once it has been taken to be
    /// joined.
    pub closed spec fn thread(&self) -> Option<H> {
        self.thread
    }

    /// A live worker with identifier `id` whose thread is `handle`.
    pub fn new(id: usize, handle: H) -> (r: Self)
        ensures
            r.ident() == id,
            r.thread() == Some(handle),
    {
        Worker { id, thread: Some(handle) }
    }

    /// The worker's identifier.
    pub fn id(&self) -> (r: usize)
        ensures
            r == self.ident(),
    {
        self.id
    }

    /// Whether the worker's thread handle is still held.
    pub fn is_live(&self) -> (r: bool)
        ensures
            r == self.thread() is Some,
    {
        self.thread.is_some()
    }

    /// Moves the thread handle out of its slot. The slot is empty afterwards,
    /// so a handle is handed out at most once.
    pub fn take_thread(&mut self) -> (r: Option<H>)
        ensures
            r == old(self).thread(),
            final(self).thread() is None,
            final(self).ident() == old(self).ident(),
    {
        self.thread.take()
    }
}

/// The handles of the live workers of `ws`, in worker order.
pub open spec fn live_threads<H>(ws: Seq<Worker<H>>) -> Seq<H>
    decreases ws.len(),
{
    if ws.len() == 0 {
        Seq::empty()
    } else {
        let rest = live_threads(ws.drop_last());
        match ws.last().thread() {
            Some(h) => rest.push(h),
            None => rest,
        }
    }
}

/// A fixed-size set of workers fed from one dispatch queue.
pub struct ThreadPool<H> {
    workers: Vec<Worker<H>>,
}

impl<H> ThreadPool<H> {
    /// The workers in the order they were created.
    pub closed spec fn workers(&self) -> Seq<Worker<H>> {
        self.workers@
    }

    /// Every worker still holds its thread handle.
    pub open spec fn all_live(&self) -> bool {
        forall|i: int| 0 <= i < self.workers().len() ==> (#[trigger] self.workers()[i]).thread() is Some
    }

    /// No worker holds a thread handle any more.
    pub open spec fn all_joined(&self) -> bool {
        forall|i: int| 0 <= i < self.workers().len() ==> (#[trigger] self.workers()[i]).thread() is None
    }

    /// Creates `size` workers with identifiers `0..size`; the thread of worker
    /// `i` is what `spawn(i)` returns.
    pub fn new<F: Fn(usize) -> H>(size: usize, spawn: F) -> (r: Self)
        requires
            size > 0,
            forall|i: usize| i < size ==> spawn.requires((i,)),
        ensures
            r.workers().len() == size,
            r.all_live(),
            forall|i: int| 0 <= i < size ==> (#[trigger] r.workers()[i]).ident() == i,
            forall|i: int|
                0 <= i < size ==> spawn.ensures(
                    (i as usize,),
                    (#[trigger] r.workers()[i]).thread()->Some_0,
                ),
    {
        let mut workers: Vec<Worker<H>> = Vec::with_capacity(size);
        let mut i: usize = 0;
        while i < size
            invariant
                i <= size,
                workers@.len() == i,
                forall|j: usize| j < size ==> spawn.requires((j,)),
                forall|j: int| 0 <= j < i ==> (#[trigger] workers@[j]).ident() == j,
                forall|j: int| 0 <= j < i ==> (#[trigger] workers@[j]).thread() is Some,
                forall|j: int|
                    0 <= j < i ==> spawn.ensures((j as usize,), (#[trigger] workers@[j]).thread()->Some_0),
            decreases size - i,
        {
            let handle = spawn(i);
            workers.push(Worker::new(i, handle));
            i = i + 1;
        }
        ThreadPool { workers }
    }

    /// The number of workers, fixed at construction.
    pub fn size(&self) -> (r: usize)
        ensures
            r == self.workers().len(),
    {
        self.workers.len()
    }

    /// The worker at position `i`.
    pub fn worker(&self, i: usize) -> (r: &Worker<H>)
        requires
            i < self.workers().len(),
        ensures
            *r == self.workers()[i as int],
    {
        &self.workers[i]
    }

    /// Submits `job`: it is queued behind every message sent before it, to be
    /// taken by exactly one worker.
    pub fn execute<J>(&self, d: &mut Dispatch<J>, job: J)
        ensures
            final(d).pending() == old(d).pending().push(Message::NewJob(job)),
            final(d).delivered() == old(d).delivered(),
    {
        d.send(Message::NewJob(job));
    }

    /// Sends one termination signal per worker, behind every job already
    /// queued.
    pub fn terminate_all<J>(&self, d: &mut Dispatch<J>)
        ensures
            final(d).pending() == old(d).pending() + terminate_signals::<J>(self.workers().len() as nat),
            final(d).delivered() == old(d).delivered(),
    {
        let n = self.workers.len();
        let mut i: usize = 0;
        while i < n
            invariant
                i <= n,
                n == self.workers().len(),
                d.pending() == old(d).pending() + terminate_signals::<J>(i as nat),
                d.delivered() == old(d).delivered(),
            decreases n - i,
        {
            d.send(Message::Terminate);
            i = i + 1;
            proof {
                assert(d.pending() =~= old(d).pending() + terminate_signals::<J>(i as nat));
            }
        }
    }

    /// Takes the thread handle of every live worker, in worker order, to be
    /// joined. Every slot is empty afterwards, so no handle can be joined
    /// twice.
    pub fn take_threads(&mut self) -> (r: Vec<H>)
        ensures
            r@ == live_threads(old(self).workers()),
            final(self).all_joined(),
            final(self).workers().len() == old(self).workers().len(),
            forall|i: int|
                0 <= i < old(self).workers().len() ==> (#[trigger] final(self).workers()[i]).ident()
                    == old(self).workers()[i].ident(),
    {
        let mut r: Vec<H> = Vec::new();
        let n = self.workers.len();
        let mut i: usize = 0;
        while i < n
            invariant
                i <= n,
                n == self.workers().len(),
                n == old(self).workers().len(),
                r@ == live_threads(old(self).workers().take(i as int)),
                forall|j: int| 0 <= j < i ==> (#[trigger] self.workers()[j]).thread() is None,
                forall|j: int| i <= j < n ==> #[trigger] self.workers()[j] == old(self).workers()[j],
                forall|j: int|
                    0 <= j < n ==> (#[trigger] self.workers()[j]).ident() == old(self).workers()[j].ident(),
            decreases n - i,
        {
            let slot = self.workers[i].take_thread();
            proof {
                assert(old(self).workers().take(i as int + 1).drop_last() =~= old(self).workers().take(i as int));
            }
            match slot {
                Some(h) => r.push(h),
                None => {},
            }
            i = i + 1;
        }
        proof {
            assert(old(self).workers().take(n as int) =~= old(self).workers());
        }
        r
    }
}

} // verus!

verus! {

/// Taking the threads of a pool whose workers are all live hands out exactly
/// one handle per worker, the handle of worker `i` at position `i`.
pub proof fn lemma_live_pool_yields_every_thread<H>(p: &ThreadPool<H>)
    requires
        p.all_live(),
    ensures
        live_threads(p.workers()).len() == p.workers().len(),
        forall|i: int|
            0 <= i < p.workers().len() ==> #[trigger] live_threads(p.workers())[i]
                == p.workers()[i].thread()->Some_0,
{
    lemma_live_threads_of_live(p.workers());
}

proof fn lemma_live_threads_of_live<H>(ws: Seq<Worker<H>>)
    requires
        forall|i: int| 0 <= i < ws.len() ==> (#[trigger] ws[i]).thread() is Some,
    ensures
        live_threads(ws).len() == ws.len(),
        forall|i: int| 0 <= i < ws.len() ==> #[trigger] live_threads(ws)[i] == ws[i].thread()->Some_0,
    decreases ws.len(),
{
    if ws.len() > 0 {
        let rest = ws.drop_last();
        assert forall|i: int| 0 <= i < rest.len() implies (#[trigger] rest[i]).thread() is Some by {
            assert(rest[i] == ws[i]);
        }
        lemma_live_threads_of_live(rest);
        assert(ws[ws.len() - 1].thread() is Some);
    }
}

/// Once every thread has been taken, taking again hands out nothing: no
/// worker's thread can be joined twice.
pub proof fn lemma_joined_pool_yields_nothing<H>(p: &ThreadPool<H>)
    requires
        p.all_joined(),
    ensures
        live_threads(p.workers()) == Seq::<H>::empty(),
{
    lemma_live_threads_of_joined(p.workers());
}

proof fn lemma_live_threads_of_joined<H>(ws: Seq<Worker<H>>)
    requires
        forall|i: int| 0 <= i < ws.len() ==> (#[trigger] ws[i]).thread() is None,
    ensures
        live_threads(ws) == Seq::<H>::empty(),
    decreases ws.len(),
{
    if ws.len() > 0 {
        let rest = ws.drop_last();
        assert forall|i: int| 0 <= i < rest.len() implies (#[trigger] rest[i]).thread() is None by {
            assert(rest[i] == ws[i]);
        }
        lemma_live_threads_of_joined(rest);
        assert(ws[ws.len() - 1].thread() is None);
    }
}

} // verus!
