//! The worker pool's coordination, modelled exactly: the shared message
//! queue, the decision a worker takes on each claimed message, and the
//! lifecycle guarantees — each accepted job is claimed exactly once, in
//! order, and shutdown queues one terminate order per worker and accepts
//! nothing further. The threads themselves run outside the library and
//! drive this model.
use vstd::prelude::*;

verus! {

/// A queued message: one unit of work named by its job id, or the order
/// for one worker to terminate.
#[derive(Clone, Copy, Debug, PartialEq, Eq, Structural)]
pub enum Message {
    NewJob(u64),
    Terminate,
}

/// What a worker does with a claimed message.
#[derive(Clone, Copy, Debug, PartialEq, Eq, Structural)]
pub enum WorkerAction {
    Run(u64),
    Exit,
}

/// The decision a worker takes on each message it claims: run the job, or
/// leave the claim loop. Termination is itself a queued message, never
/// pre-emptive, so a worker finishes its current job first.
pub fn worker_step(msg: Message) -> (r: WorkerAction)
    ensures
        r == (match msg {
            Message::NewJob(j) => WorkerAction::Run(j),
            Message::Terminate => WorkerAction::Exit,
        }),
{
    match msg {
        Message::NewJob(j) => WorkerAction::Run(j),
        Message::Terminate => WorkerAction::Exit,
    }
}

/// The job ids of the queued messages, in order.
pub open spec fn jobs_of(q: Seq<Message>) -> Seq<u64>
    decreases q.len(),
{
    if q.len() == 0 {
        Seq::empty()
    } else {
        match q[0] {
            Message::NewJob(j) => seq![j] + jobs_of(q.drop_first()),
            Message::Terminate => jobs_of(q.drop_first()),
        }
    }
}

/// How many terminate orders the queue holds.
pub open spec fn terminate_count(q: Seq<Message>) -> nat
    decreases q.len(),
{
    if q.len() == 0 {
        0
    } else {
        (match q[0] {
            Message::NewJob(_) => 0nat,
            Message::Terminate => 1nat,
        }) + terminate_count(q.drop_first())
    }
}

pub proof fn lemma_jobs_of_push(q: Seq<Message>, m: Message)
    ensures
        jobs_of(q.push(m)) == jobs_of(q) + (match m {
            Message::NewJob(j) => seq![j],
            Message::Terminate => Seq::<u64>::empty(),
        }),
        terminate_count(q.push(m)) == terminate_count(q) + (match m {
            Message::NewJob(_) => 0nat,
            Message::Terminate => 1nat,
        }),
    decreases q.len(),
{
    if q.len() == 0 {
        assert(q.push(m).drop_first() =~= q);
        assert(jobs_of(q.push(m)) =~= jobs_of(q) + (match m {
            Message::NewJob(j) => seq![j],
            Message::Terminate => Seq::<u64>::empty(),
        }));
    } else {
        assert(q.push(m).drop_first() =~= q.drop_first().push(m));
        lemma_jobs_of_push(q.drop_first(), m);
        assert(jobs_of(q.push(m)) =~= jobs_of(q) + (match m {
            Message::NewJob(j) => seq![j],
            Message::Terminate => Seq::<u64>::empty(),
        }));
    }
}

/// The pool's coordination state: the shared queue, the worker count,
/// whether shutdown has begun, and the ghost history of accepted and
/// delivered job ids.
pub struct Threadpool {
    pub queue: Vec<Message>,
    pub workers: u8,
    pub closed: bool,
    pub submitted: Ghost<Seq<u64>>,
    pub delivered: Ghost<Seq<u64>>,
}

impl Threadpool {
    /// The delivered jobs followed by the queued ones are exactly the
    /// accepted ones, in order; terminate orders appear only after
    /// shutdown, and then at most one per worker.
    pub open spec fn wf(self) -> bool {
        &&& self.delivered@ + jobs_of(self.queue@) == self.submitted@
        &&& (!self.closed ==> terminate_count(self.queue@) == 0)
        &&& terminate_count(self.queue@) <= self.workers
    }

    /// Create the coordination state for a pool of `num` workers.
    pub fn new(num: u8) -> (r: Self)
        ensures
            r.wf(),
            r.workers == num,
            !r.closed,
            r.queue@ == Seq::<Message>::empty(),
            r.submitted@ == Seq::<u64>::empty(),
            r.delivered@ == Seq::<u64>::empty(),
    {
        let r = Threadpool {
            queue: Vec::new(),
            workers: num,
            closed: false,
            submitted: Ghost(Seq::empty()),
            delivered: Ghost(Seq::empty()),
        };
        proof {
            assert(r.delivered@ + jobs_of(r.queue@) =~= r.submitted@);
        }
        r
    }

    /// Enqueue one job for eventual execution, fire and forget. A pool
    /// that has begun shutdown accepts nothing: the job is refused.
    pub fn execute(&mut self, job: u64) -> (accepted: bool)
        requires
            old(self).wf(),
        ensures
            final(self).wf(),
            accepted == !old(self).closed,
            final(self).workers == old(self).workers,
            final(self).closed == old(self).closed,
            final(self).delivered == old(self).delivered,
            accepted ==> final(self).queue@ == old(self).queue@.push(Message::NewJob(job))
                && final(self).submitted@ == old(self).submitted@.push(job),
            !accepted ==> final(self).queue == old(self).queue && final(self).submitted == old(
                self,
            ).submitted,
    {
        if self.closed {
            return false;
        }
        self.queue.push(Message::NewJob(job));
        proof {
            lemma_jobs_of_push(old(self).queue@, Message::NewJob(job));
            self.submitted@ = old(self).submitted@.push(job);
            assert(self.delivered@ + jobs_of(self.queue@) =~= self.submitted@);
        }
        true
    }

    /// Begin shutdown: refuse further jobs and queue exactly one terminate
    /// order per worker, behind every job already accepted.
    pub fn shutdown(&mut self)
        requires
            old(self).wf(),
            !old(self).closed,
        ensures
            final(self).wf(),
            final(self).closed,
            final(self).workers == old(self).workers,
            final(self).submitted == old(self).submitted,
            final(self).delivered == old(self).delivered,
            jobs_of(final(self).queue@) == jobs_of(old(self).queue@),
            terminate_count(final(self).queue@) == old(self).workers,
            old(self).queue@.is_prefix_of(final(self).queue@),
    {
        let n = self.workers;
        let mut k: u8 = 0;
        while k < n
            invariant
                k <= n,
                self.workers == n,
                self.closed == old(self).closed,
                self.submitted == old(self).submitted,
                self.delivered == old(self).delivered,
                jobs_of(self.queue@) == jobs_of(old(self).queue@),
                terminate_count(old(self).queue@) == 0,
                terminate_count(self.queue@) == k,
                old(self).queue@.is_prefix_of(self.queue@),
                old(self).wf(),
                self.delivered@ + jobs_of(self.queue@) == self.submitted@,
            decreases n - k,
        {
            proof {
                lemma_jobs_of_push(self.queue@, Message::Terminate);
            }
            self.queue.push(Message::Terminate);
            k = k + 1;
            proof {
                assert(old(self).queue@.is_prefix_of(self.queue@));
            }
        }
        self.closed = true;
    }

    /// Claim the message at the front of the queue, if any. Exactly one
    /// worker claims each message, and a claimed job moves from the queue
    /// to the delivered history.
    pub fn claim(&mut self) -> (r: Option<Message>)
        requires
            old(self).wf(),
        ensures
            final(self).wf(),
            final(self).workers == old(self).workers,
            final(self).closed == old(self).closed,
            final(self).submitted == old(self).submitted,
            old(self).queue@.len() == 0 ==> r is None && final(self).queue == old(self).queue
                && final(self).delivered == old(self).delivered,
            old(self).queue@.len() > 0 ==> {
                &&& r == Some(old(self).queue@[0])
                &&& final(self).queue@ == old(self).queue@.drop_first()
                &&& (match old(self).queue@[0] {
                    Message::NewJob(j) => final(self).delivered@ == old(self).delivered@.push(j),
                    Message::Terminate => final(self).delivered == old(self).delivered,
                })
            },
    {
        if self.queue.len() == 0 {
            return None;
        }
        let msg = self.queue.remove(0);
        proof {
            assert(old(self).queue@.remove(0) =~= old(self).queue@.drop_first());
            if let Message::NewJob(j) = msg {
                self.delivered@ = old(self).delivered@.push(j);
                assert(jobs_of(old(self).queue@) == seq![j] + jobs_of(self.queue@));
                assert(self.delivered@ + jobs_of(self.queue@) =~= self.submitted@);
            } else {
                assert(self.delivered@ + jobs_of(self.queue@) =~= self.submitted@);
            }
        }
        Some(msg)
    }
}

/// In every reachable pool state, what has been handed to workers is a
/// prefix of what was accepted: no job is delivered that was not accepted,
/// none out of order, and no accepted job is delivered a second time.
pub proof fn lemma_delivered_prefix_of_submitted(p: Threadpool)
    requires
        p.wf(),
    ensures
        p.delivered@.is_prefix_of(p.submitted@),
{
    assert(p.submitted@.take(p.delivered@.len() as int) =~= p.delivered@);
}

/// Once the queue has drained, the delivered jobs are exactly the accepted
/// ones, in submission order: every job was claimed exactly once and none
/// was lost or duplicated.
pub proof fn lemma_jobs_exactly_once(p: Threadpool)
    requires
        p.wf(),
        p.queue@.len() == 0,
    ensures
        p.delivered@ == p.submitted@,
{
    assert(p.delivered@ + jobs_of(p.queue@) =~= p.delivered@);
}

} // verus!
