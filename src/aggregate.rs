//! The combined counts of all workers.

use vstd::prelude::*;
use crate::worker::{lemma_failures_bounded, Worker, WorkerView};

verus! {

/// Iterations completed by all workers together.
pub open spec fn total_runs(ws: Seq<WorkerView>) -> nat
    decreases ws.len(),
{
    if ws.len() == 0 {
        0
    } else {
        total_runs(ws.drop_last()) + ws.last().completed()
    }
}

/// Failed iterations of all workers together.
pub open spec fn total_failures(ws: Seq<WorkerView>) -> nat
    decreases ws.len(),
{
    if ws.len() == 0 {
        0
    } else {
        total_failures(ws.drop_last()) + ws.last().failed()
    }
}

/// All workers together fail no more often than they run.
pub proof fn lemma_total_failures_bounded(ws: Seq<WorkerView>)
    ensures
        total_failures(ws) <= total_runs(ws),
    decreases ws.len(),
{
    if ws.len() > 0 {
        lemma_total_failures_bounded(ws.drop_last());
        lemma_failures_bounded(ws.last().outcomes);
    }
}

/// The views of a list of workers.
pub open spec fn views(ws: Seq<Worker>) -> Seq<WorkerView> {
    ws.map_values(|w: Worker| w@)
}

/// The run and failure counters shared by all workers.
#[derive(Clone, Copy, Debug, PartialEq, Eq, Structural)]
pub struct Aggregate {
    pub run_times: u32,
    pub fail_times: u32,
}

impl Aggregate {
    /// Both counters at zero.
    pub fn new() -> (a: Aggregate)
        ensures
            a.run_times == 0,
            a.fail_times == 0,
    {
        Aggregate { run_times: 0, fail_times: 0 }
    }

    /// Adds `count` completed iterations.
    pub fn record_run(&mut self, count: u32)
        requires
            old(self).run_times + count <= u32::MAX,
        ensures
            final(self).run_times == old(self).run_times + count,
            final(self).fail_times == old(self).fail_times,
    {
        self.run_times = self.run_times + count;
    }

    /// Adds `fail_count` failed iterations.
    pub fn record_result(&mut self, fail_count: u32)
        requires
            old(self).fail_times + fail_count <= u32::MAX,
        ensures
            final(self).fail_times == old(self).fail_times + fail_count,
            final(self).run_times == old(self).run_times,
    {
        self.fail_times = self.fail_times + fail_count;
    }

    /// The number of iterations recorded so far.
    pub fn current_run_times(&self) -> (r: u32)
        ensures
            r == self.run_times,
    {
        self.run_times
    }
}

/// The aggregate after every worker has reported its counts once, in order.
pub fn tally(workers: &Vec<Worker>) -> (a: Aggregate)
    requires
        forall|i: int| 0 <= i < workers@.len() ==> #[trigger] workers@[i].wf(),
        total_runs(views(workers@)) <= u32::MAX,
    ensures
        a.run_times == total_runs(views(workers@)),
        a.fail_times == total_failures(views(workers@)),
        a.fail_times <= a.run_times,
{
    let mut a = Aggregate::new();
    let mut i: usize = 0;
    while i < workers.len()
        invariant
            forall|j: int| 0 <= j < workers@.len() ==> #[trigger] workers@[j].wf(),
            total_runs(views(workers@)) <= u32::MAX,
            i <= workers@.len(),
            a.run_times == total_runs(views(workers@.subrange(0, i as int))),
            a.fail_times == total_failures(views(workers@.subrange(0, i as int))),
        decreases workers.len() - i,
    {
        let ghost before = views(workers@.subrange(0, i as int));
        let ghost after = views(workers@.subrange(0, i + 1));
        proof {
            assert(after.drop_last() =~= before);
            lemma_total_prefix_bounded(views(workers@), i + 1);
            assert(views(workers@).subrange(0, i + 1) =~= after);
            lemma_total_failures_bounded(after);
        }
        let w = &workers[i];
        a.record_result(w.failed());
        a.record_run(w.completed());
        i += 1;
    }
    proof {
        assert(workers@.subrange(0, i as int) =~= workers@);
        lemma_total_failures_bounded(views(workers@));
    }
    a
}

/// A prefix of the workers has run no more than all of them.
proof fn lemma_total_prefix_bounded(ws: Seq<WorkerView>, k: int)
    requires
        0 <= k <= ws.len(),
    ensures
        total_runs(ws.subrange(0, k)) <= total_runs(ws),
    decreases ws.len() - k,
{
    if k < ws.len() {
        lemma_total_prefix_bounded(ws, k + 1);
        assert(ws.subrange(0, k + 1).drop_last() =~= ws.subrange(0, k));
    } else {
        assert(ws.subrange(0, k) =~= ws);
    }
}

/// Whether the progress display polls again: until the counter reaches the
/// total, or a cancellation comes.
pub fn monitor_continues(current: u32, total: u32, cancelled: bool) -> (r: bool)
    ensures
        r == (current < total && !cancelled),
{
    current < total && !cancelled
}

} // verus!
