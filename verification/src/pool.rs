//! The worker pool's state, as the dispatch engine reasons about it: a
//! fixed number of workers consuming one FIFO job queue. Jobs are
//! numbered in submission order; the model records which are queued,
//! how many are running at once, and which have completed. The loop that
//! blocks on sockets and threads drives these transitions from outside;
//! each transition's contract pins down what it may observe: no job is
//! delivered twice, delivery is in submission order, and never more jobs
//! run at once than the size fixed at construction.

use vstd::prelude::*;

verus! {

/// Construction was asked for an impossible pool: size zero.
#[derive(Clone, Copy, PartialEq, Eq, Structural, Debug)]
pub struct PoolConfigurationError;

/// The shared state of a worker pool of fixed size. `queue` holds the
/// submitted-but-undelivered job numbers in submission order; `running`
/// counts jobs handed to a worker and not yet finished; `delivered`
/// records every hand-off, in order.
pub struct PoolState {
    pub size: usize,
    pub queue: Vec<usize>,
    pub running: usize,
    pub completed: usize,
    pub next_job: usize,
    pub accepting: bool,
    pub delivered: Ghost<Seq<usize>>,
}

impl PoolState {
    /// Every state reachable through the transitions below satisfies
    /// this: the concurrency bound holds, and the jobs delivered so far
    /// followed by the jobs still queued are exactly the jobs submitted,
    /// in submission order.
    pub open spec fn wf(self) -> bool {
        &&& 1 <= self.size
        &&& self.running <= self.size
        &&& self.delivered@ + self.queue@ =~= Seq::new(
            self.next_job as nat,
            |i: int| i as usize,
        )
        &&& self.completed + self.running == self.delivered@.len()
    }

    /// A pool of `size` workers, idle, with nothing queued. A size of
    /// zero is refused with `PoolConfigurationError` before any worker
    /// exists; nothing is ever started for such a request.
    pub fn new(size: usize) -> (r: Result<PoolState, PoolConfigurationError>)
        ensures
            size >= 1 <==> r is Ok,
            r matches Ok(p) ==> p.wf() && p.size == size && p.queue@.len() == 0 && p.running == 0
                && p.completed == 0 && p.next_job == 0 && p.accepting && p.delivered@.len() == 0,
    {
        if size == 0 {
            return Err(PoolConfigurationError);
        }
        let p = PoolState {
            size,
            queue: Vec::new(),
            running: 0,
            completed: 0,
            next_job: 0,
            accepting: true,
            delivered: Ghost(Seq::empty()),
        };
        proof {
            assert(p.delivered@ + p.queue@ =~= Seq::new(0, |i: int| i as usize));
        }
        Ok(p)
    }

    /// Submission: the next job number is appended to the queue. The
    /// queue is unbounded, so submission itself never blocks the caller.
    pub fn submit(&mut self) -> (job: usize)
        requires
            old(self).wf(),
            old(self).accepting,
            old(self).next_job < usize::MAX,
        ensures
            final(self).wf(),
            job == old(self).next_job,
            final(self).queue@ == old(self).queue@.push(job),
            final(self).next_job == old(self).next_job + 1,
            final(self).size == old(self).size,
            final(self).running == old(self).running,
            final(self).completed == old(self).completed,
            final(self).accepting,
            final(self).delivered == old(self).delivered,
    {
        let job = self.next_job;
        self.queue.push(job);
        self.next_job = self.next_job + 1;
        proof {
            assert(self.delivered@ + self.queue@ =~= (self.delivered@
                + old(self).queue@).push(job));
            assert((self.delivered@ + old(self).queue@).push(job) =~= Seq::new(
                self.next_job as nat,
                |i: int| i as usize,
            ));
        }
        job
    }

    /// Delivery: an idle worker takes the front job, if any. Requires an
    /// idle worker to exist (`running < size`), which is what keeps more
    /// than `size` jobs from ever running at once. The job leaves the
    /// queue for good: it can never be delivered to another worker.
    pub fn begin_job(&mut self) -> (job: Option<usize>)
        requires
            old(self).wf(),
            old(self).running < old(self).size,
        ensures
            final(self).wf(),
            old(self).queue@.len() == 0 ==> job is None && *final(self) == *old(self),
            old(self).queue@.len() > 0 ==> job == Some(old(self).queue@[0]),
            old(self).queue@.len() > 0 ==> final(self).queue@ == old(self).queue@.drop_first(),
            old(self).queue@.len() > 0 ==> final(self).running == old(self).running + 1,
            old(self).queue@.len() > 0 ==> final(self).delivered@ == old(self).delivered@.push(
                old(self).queue@[0],
            ),
            final(self).size == old(self).size,
            final(self).completed == old(self).completed,
            final(self).next_job == old(self).next_job,
            final(self).accepting == old(self).accepting,
    {
        if self.queue.len() == 0 {
            return None;
        }
        let job = self.queue.remove(0);
        self.running = self.running + 1;
        proof {
            self.delivered@ = self.delivered@.push(job);
            assert(self.queue@ =~= old(self).queue@.drop_first());
            assert(self.delivered@ + self.queue@ =~= Seq::new(
                self.next_job as nat,
                |i: int| i as usize,
            ));
        }
        Some(job)
    }

    /// Completion: the worker running a job reports it finished — or
    /// caught a fault at the job boundary and goes on serving, so a bad
    /// connection costs the pool nothing but this one job.
    pub fn finish_job(&mut self)
        requires
            old(self).wf(),
            old(self).running > 0,
        ensures
            final(self).wf(),
            final(self).running == old(self).running - 1,
            final(self).completed == old(self).completed + 1,
            final(self).queue == old(self).queue,
            final(self).size == old(self).size,
            final(self).next_job == old(self).next_job,
            final(self).accepting == old(self).accepting,
            final(self).delivered == old(self).delivered,
    {
        self.running = self.running - 1;
        self.completed = self.completed + 1;
    }

    /// Shutdown: the job source closes. Nothing new may be submitted;
    /// queued and in-flight jobs are still delivered and finished through
    /// the transitions above until the pool drains.
    pub fn shutdown(&mut self)
        requires
            old(self).wf(),
        ensures
            final(self).wf(),
            !final(self).accepting,
            final(self).queue == old(self).queue,
            final(self).size == old(self).size,
            final(self).running == old(self).running,
            final(self).completed == old(self).completed,
            final(self).next_job == old(self).next_job,
            final(self).delivered == old(self).delivered,
    {
        self.accepting = false;
    }
}

/// The concurrency bound: in every well-formed pool state — and every
/// transition preserves well-formedness — the number of jobs running at
/// once never exceeds the pool size fixed at construction.
pub proof fn lemma_concurrency_bound(p: PoolState)
    requires
        p.wf(),
    ensures
        p.running <= p.size,
{
}

/// FIFO delivery, no job twice: the i-th job ever handed to a worker is
/// the i-th job submitted, so delivery follows submission order and no
/// job number repeats.
pub proof fn lemma_fifo_delivery(p: PoolState)
    requires
        p.wf(),
    ensures
        forall|i: int| 0 <= i < p.delivered@.len() ==> #[trigger] p.delivered@[i] == i,
{
    assert forall|i: int| 0 <= i < p.delivered@.len() implies #[trigger] p.delivered@[i]
        == i by {
        assert((p.delivered@ + p.queue@)[i] == p.delivered@[i]);
    }
}

/// A drained pool completed everything: once the queue is empty and no
/// job is in flight, every job ever submitted has been delivered exactly
/// once and has finished — shutdown joins with no job lost and no worker
/// left busy.
pub proof fn lemma_drained_pool_complete(p: PoolState)
    requires
        p.wf(),
        p.queue@.len() == 0,
        p.running == 0,
    ensures
        p.completed == p.next_job,
        p.delivered@.len() == p.next_job,
{
    assert(p.delivered@ =~= p.delivered@ + p.queue@);
}

} // verus!
