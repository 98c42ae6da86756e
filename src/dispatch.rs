//! The dispatcher's admission gate: tasks are launched in order, at most
//! `bound` of them running at once, and the run is over when every launched
//! task has reported back.
use vstd::prelude::*;

verus! {

/// Launch bookkeeping for a run of `total` tasks. Tasks `0 .. launched` have
/// been launched, and `finished` of them have reported back.
pub struct Dispatch {
    total: usize,
    bound: usize,
    launched: usize,
    finished: usize,
}

/// The number of workers admitted at once for a configured limit: the limit,
/// at least one, or every task where there is no limit.
pub open spec fn effective_bound(total: usize, limit: Option<usize>) -> usize {
    match limit {
        Some(l) => if l == 0 { 1 } else { l },
        None => if total == 0 { 1 } else { total },
    }
}

impl Dispatch {
    /// The number of tasks in the run.
    pub closed spec fn total(&self) -> nat {
        self.total as nat
    }

    /// The most workers admitted at once.
    pub closed spec fn bound(&self) -> nat {
        self.bound as nat
    }

    /// How many tasks have been launched, in task order.
    pub closed spec fn launched(&self) -> nat {
        self.launched as nat
    }

    /// How many launched tasks have reported back.
    pub closed spec fn finished(&self) -> nat {
        self.finished as nat
    }

    /// Never more finished than launched, nor more launched than there are
    /// tasks, nor more running than the bound, which is at least one.
    pub closed spec fn wf(&self) -> bool {
        &&& self.finished <= self.launched <= self.total
        &&& self.launched - self.finished <= self.bound
        &&& self.bound >= 1
    }

    /// A run of `total` tasks, none launched, with at most `limit` running at
    /// once (`None`: no limit).
    pub fn new(total: usize, limit: Option<usize>) -> (r: Dispatch)
        ensures
            r.wf(),
            r.total() == total,
            r.bound() == effective_bound(total, limit),
            r.launched() == 0,
            r.finished() == 0,
    {
        let bound = match limit {
            Some(l) => if l == 0 { 1 } else { l },
            None => if total == 0 { 1 } else { total },
        };
        Dispatch { total, bound, launched: 0, finished: 0 }
    }

    /// The next task to launch, if one is left and the bound admits another
    /// worker; that task then counts as launched.
    pub fn next_launch(&mut self) -> (r: Option<usize>)
        requires
            old(self).wf(),
        ensures
            final(self).wf(),
            final(self).total() == old(self).total(),
            final(self).bound() == old(self).bound(),
            final(self).finished() == old(self).finished(),
            old(self).launched() < old(self).total() && old(self).launched() - old(self).finished()
                < old(self).bound() ==> r == Some(old(self).launched() as usize)
                && final(self).launched() == old(self).launched() + 1,
            !(old(self).launched() < old(self).total() && old(self).launched() - old(self).finished()
                < old(self).bound()) ==> r is None && final(self).launched() == old(self).launched(),
    {
        if self.launched < self.total && self.launched - self.finished < self.bound {
            let t = self.launched;
            self.launched = self.launched + 1;
            Some(t)
        } else {
            None
        }
    }

    /// Notes that one running worker has reported back. Ignored where none is
    /// running.
    pub fn worker_finished(&mut self)
        requires
            old(self).wf(),
        ensures
            final(self).wf(),
            final(self).total() == old(self).total(),
            final(self).bound() == old(self).bound(),
            final(self).launched() == old(self).launched(),
            final(self).finished() == if old(self).finished() < old(self).launched() {
                old(self).finished() + 1
            } else {
                old(self).finished()
            },
    {
        if self.finished < self.launched {
            self.finished = self.finished + 1;
        }
    }

    /// The number of workers running now.
    pub fn running(&self) -> (r: usize)
        requires
            self.wf(),
        ensures
            r == self.launched() - self.finished(),
    {
        self.launched - self.finished
    }

    /// Whether every task has been launched and has reported back: the
    /// barrier after which the report may be finalized.
    pub fn is_done(&self) -> (r: bool)
        requires
            self.wf(),
        ensures
            r == (self.finished() == self.total()),
    {
        self.finished == self.total
    }
}

} // verus!
