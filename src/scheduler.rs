//! The command queue: highest priority first, equal priorities in the order
//! they were queued, up to a fixed capacity.
use vstd::prelude::*;
use crate::cmds::CmdJob;

verus! {

/// Why a job was not queued.
#[derive(Clone, Copy, Debug, PartialEq, Eq, Structural)]
pub enum QueueError {
    /// The queue holds as many jobs as it may.
    Full,
}

/// `i` is the position of the job that leaves next: the first of those with
/// the highest priority.
pub open spec fn is_next(jobs: Seq<CmdJob>, i: int) -> bool {
    &&& 0 <= i < jobs.len()
    &&& forall|k: int| 0 <= k < jobs.len() ==> (#[trigger] jobs[k]).priority_spec() <= jobs[i].priority_spec()
    &&& forall|k: int| 0 <= k < i ==> (#[trigger] jobs[k]).priority_spec() < jobs[i].priority_spec()
}

/// A bounded max-priority FIFO queue of command jobs.
#[derive(Debug)]
pub struct CmdQueue {
    jobs: Vec<CmdJob>,
    capacity: usize,
}

impl CmdQueue {
    /// The queued jobs, in the order they were queued.
    pub closed spec fn jobs_spec(&self) -> Seq<CmdJob> {
        self.jobs@
    }

    pub closed spec fn capacity_spec(&self) -> usize {
        self.capacity
    }

    /// An empty queue for at most `capacity` jobs.
    pub fn new(capacity: usize) -> (r: CmdQueue)
        ensures
            r.jobs_spec() == Seq::<CmdJob>::empty(),
            r.capacity_spec() == capacity,
    {
        CmdQueue { jobs: Vec::new(), capacity }
    }

    /// Number of queued jobs.
    pub fn len(&self) -> (r: usize)
        ensures
            r == self.jobs_spec().len(),
    {
        self.jobs.len()
    }

    /// Whether no job is queued.
    pub fn is_empty(&self) -> (r: bool)
        ensures
            r == (self.jobs_spec().len() == 0),
    {
        self.jobs.len() == 0
    }

    /// Queues `job` at the back; `Full` when the queue is at capacity.
    pub fn push(&mut self, job: CmdJob) -> (r: Result<(), QueueError>)
        ensures
            final(self).capacity_spec() == old(self).capacity_spec(),
            r.is_ok() <==> old(self).jobs_spec().len() < old(self).capacity_spec(),
            r.is_ok() ==> final(self).jobs_spec() == old(self).jobs_spec().push(job),
            r.is_err() ==> final(self).jobs_spec() == old(self).jobs_spec(),
    {
        if self.jobs.len() >= self.capacity {
            return Err(QueueError::Full);
        }
        self.jobs.push(job);
        Ok(())
    }

    /// Position of the job that leaves next.
    fn next_index(&self) -> (r: usize)
        requires
            self.jobs@.len() > 0,
        ensures
            is_next(self.jobs@, r as int),
    {
        let mut best: usize = 0;
        let mut i: usize = 1;
        while i < self.jobs.len()
            invariant
                1 <= i <= self.jobs@.len(),
                best < i,
                forall|k: int| 0 <= k < i ==> (#[trigger] self.jobs@[k]).priority_spec() <= self.jobs@[best as int].priority_spec(),
                forall|k: int| 0 <= k < best ==> (#[trigger] self.jobs@[k]).priority_spec() < self.jobs@[best as int].priority_spec(),
            decreases self.jobs@.len() - i,
        {
            if self.jobs[i].priority() > self.jobs[best].priority() {
                best = i;
            }
            i = i + 1;
        }
        best
    }

    /// Takes out the job with the highest priority, the earliest queued among
    /// equals; `None` when the queue is empty.
    pub fn pop(&mut self) -> (r: Option<CmdJob>)
        ensures
            final(self).capacity_spec() == old(self).capacity_spec(),
            r.is_none() <==> old(self).jobs_spec().len() == 0,
            r.is_none() ==> final(self).jobs_spec() == old(self).jobs_spec(),
            r.is_some() ==> exists|i: int| #[trigger] is_next(old(self).jobs_spec(), i) && r.unwrap() == old(self).jobs_spec()[i]
                && final(self).jobs_spec() == old(self).jobs_spec().remove(i),
    {
        if self.jobs.len() == 0 {
            return None;
        }
        let i = self.next_index();
        let ghost before = self.jobs@;
        let job = self.jobs.remove(i);
        proof {
            assert(is_next(old(self).jobs_spec(), i as int) && job == old(self).jobs_spec()[i as int] && self.jobs_spec() == old(self).jobs_spec().remove(i as int));
        }
        Some(job)
    }
}

} // verus!
