//! The job queue behind the worker pool.
//!
//! The pool is a fixed set of worker threads draining one shared queue;
//! the threads, the blocking and the lock around the queue belong to the
//! runtime.  The queue's own behaviour lives here: jobs come out in the
//! order they went in, enqueueing is refused once the sending side is
//! closed, and closing loses nothing — every job enqueued before the
//! close is still handed out afterwards.

use vstd::prelude::*;

verus! {

/// The shared job queue: pending jobs in arrival order, and whether the
/// sending side has been closed for shutdown.
pub struct JobQueue<J> {
    jobs: Vec<J>,
    closed: bool,
}

impl<J> JobQueue<J> {
    /// The jobs enqueued and not yet taken, in arrival order.
    pub closed spec fn pending(&self) -> Seq<J> {
        self.jobs@
    }

    /// Whether the sending side has been closed.
    pub closed spec fn is_closed(&self) -> bool {
        self.closed
    }

    /// An open queue with nothing pending.
    pub fn new() -> (r: JobQueue<J>)
        ensures
            r.pending() == Seq::<J>::empty(),
            !r.is_closed(),
    {
        let r = JobQueue { jobs: Vec::new(), closed: false };
        proof {
            assert(r.pending() =~= Seq::<J>::empty());
        }
        r
    }

    /// How many jobs are pending.
    pub fn len(&self) -> (r: usize)
        ensures
            r == self.pending().len(),
    {
        self.jobs.len()
    }

    /// Whether the sending side has been closed.
    pub fn closed_for_shutdown(&self) -> (r: bool)
        ensures
            r == self.is_closed(),
    {
        self.closed
    }

    /// Enqueues one job behind everything already pending.  The queue is
    /// unbounded: nothing is dropped and nothing blocks here, however
    /// deep the backlog grows.
    pub fn enqueue(&mut self, job: J)
        requires
            !old(self).is_closed(),
        ensures
            final(self).pending() == old(self).pending().push(job),
            !final(self).is_closed(),
    {
        self.jobs.push(job);
    }

    /// Closes the sending side: nothing more can be enqueued, and what is
    /// pending stays pending until taken.
    pub fn close(&mut self)
        ensures
            final(self).pending() == old(self).pending(),
            final(self).is_closed(),
    {
        self.closed = true;
    }

    /// Hands out the oldest pending job, or `None` when nothing is
    /// pending.  A worker receiving `None` from a closed queue exits; on
    /// an open queue it waits for more work.
    pub fn take_next(&mut self) -> (r: Option<J>)
        ensures
            final(self).is_closed() == old(self).is_closed(),
            old(self).pending().len() == 0 ==> r is None && final(self).pending()
                == old(self).pending(),
            old(self).pending().len() > 0 ==> (match r {
                Some(job) => job == old(self).pending()[0] && final(self).pending()
                    == old(self).pending().drop_first(),
                None => false,
            }),
    {
        if self.jobs.len() == 0 {
            None
        } else {
            let job = self.jobs.remove(0);
            proof {
                assert(self.jobs@ =~= old(self).jobs@.drop_first());
            }
            Some(job)
        }
    }

    /// Takes every pending job of a closed queue, in arrival order: no
    /// job enqueued before the close is abandoned by the shutdown signal
    /// itself.
    pub fn drain(&mut self) -> (r: Vec<J>)
        requires
            old(self).is_closed(),
        ensures
            r@ == old(self).pending(),
            final(self).pending() == Seq::<J>::empty(),
            final(self).is_closed(),
    {
        let mut out: Vec<J> = Vec::new();
        loop
            invariant_except_break
                self.is_closed(),
                out@ + self.pending() == old(self).pending(),
            ensures
                self.is_closed(),
                out@ == old(self).pending(),
                self.pending() == Seq::<J>::empty(),
            decreases self.pending().len(),
        {
            match self.take_next() {
                Some(job) => {
                    out.push(job);
                    proof {
                        assert(out@ + self.pending() =~= old(self).pending());
                    }
                },
                None => {
                    proof {
                        assert(out@ =~= old(self).pending());
                    }
                    break ;
                },
            }
        }
        out
    }
}

/// Law: a job enqueued behind `n` pending jobs is exactly the one handed
/// out once those `n` are taken — a job waiting in the queue is reached,
/// never passed over, under the first-in-first-out contract of
/// `take_next`.
pub proof fn lemma_enqueued_job_is_reached<J>(pending: Seq<J>, job: J)
    ensures
        pending.push(job).skip(pending.len() as int)[0] == job,
        forall|k: int| 0 <= k < pending.len() ==> pending.push(job)[k] == pending[k],
{
    assert(pending.push(job).skip(pending.len() as int)[0] == pending.push(job)[pending.len() as int]);
}

} // verus!
