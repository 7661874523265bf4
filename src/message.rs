use vstd::prelude::*;

verus! {

/// What travels on the dispatch channel from the pool to its workers.
pub enum Message<J> {
    /// A unit of work for exactly one worker.
    NewJob(J),
    /// Tells exactly one worker to leave its loop.
    Terminate,
}

/// What a worker does with the message it has just taken.
pub enum Step<J> {
    /// Run the job to completion, then take the next message.
    Run(J),
    /// Leave the loop: the worker is terminated.
    Exit,
}

/// The number of `Terminate` messages in `s`.
pub open spec fn terminates<J>(s: Seq<Message<J>>) -> nat
    decreases s.len(),
{
    if s.len() == 0 {
        0
    } else {
        terminates(s.drop_last()) + if s.last() is Terminate { 1nat } else { 0nat }
    }
}

/// `n` termination signals.
pub open spec fn terminate_signals<J>(n: nat) -> Seq<Message<J>> {
    Seq::new(n, |i: int| Message::Terminate)
}

/// Counting termination signals distributes over concatenation.
pub proof fn lemma_terminates_concat<J>(a: Seq<Message<J>>, b: Seq<Message<J>>)
    ensures
        terminates(a + b) == terminates(a) + terminates(b),
    decreases b.len(),
{
    if b.len() == 0 {
        assert(a + b =~= a);
    } else {
        lemma_terminates_concat(a, b.drop_last());
        assert((a + b).drop_last() =~= a + b.drop_last());
    }
}

/// `n` termination signals count as `n`.
pub proof fn lemma_terminates_signals<J>(n: nat)
    ensures
        terminates(terminate_signals::<J>(n)) == n,
    decreases n,
{
    if n > 0 {
        lemma_terminates_signals::<J>((n - 1) as nat);
        assert(terminate_signals::<J>(n).drop_last() =~= terminate_signals::<J>((n - 1) as nat));
    }
}

/// The worker's transition: a job is run and the worker keeps running, a
/// termination signal ends its loop.
pub fn handle_message<J>(m: Message<J>) -> (r: Step<J>)
    ensures
        m is Terminate <==> r is Exit,
        m is NewJob ==> r == Step::Run(m->NewJob_0),
{
    match m {
        Message::NewJob(job) => Step::Run(job),
        Message::Terminate => Step::Exit,
    }
}

} // verus!
