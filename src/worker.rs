//! What a worker decides between runs of the child process.

use vstd::prelude::*;

verus! {

/// The number of failed runs in a history of outcomes (`true` is success).
pub open spec fn failures(outcomes: Seq<bool>) -> nat
    decreases outcomes.len(),
{
    if outcomes.len() == 0 {
        0
    } else {
        failures(outcomes.drop_last()) + if outcomes.last() {
            0nat
        } else {
            1nat
        }
    }
}

/// A history never holds more failures than runs.
pub proof fn lemma_failures_bounded(outcomes: Seq<bool>)
    ensures
        failures(outcomes) <= outcomes.len(),
    decreases outcomes.len(),
{
    if outcomes.len() > 0 {
        lemma_failures_bounded(outcomes.drop_last());
    }
}

proof fn lemma_failures_push(outcomes: Seq<bool>, success: bool)
    ensures
        failures(outcomes.push(success)) == failures(outcomes) + if success {
            0nat
        } else {
            1nat
        },
{
    assert(outcomes.push(success).drop_last() =~= outcomes);
}

/// The flags of a run that shape what a worker does after each iteration.
#[derive(Clone, Copy, Debug, PartialEq, Eq, Structural)]
pub struct RunFlags {
    /// Do not echo the child's captured output.
    pub silent: bool,
    /// Parse a score from the output of each successful run.
    pub score: bool,
    /// Report each completed iteration at once, for a live progress display.
    pub progress: bool,
}

/// What a worker does next.
#[derive(Clone, Copy, Debug, PartialEq, Eq, Structural)]
pub enum WorkerAction {
    /// Start one more child process.
    Spawn,
    /// End the loop and report the tally.
    Stop,
}

/// What follows one completed run.
#[derive(Clone, Copy, Debug, PartialEq, Eq, Structural)]
pub struct FollowUp {
    /// Write the captured stdout and stderr to the program's own streams.
    pub echo_output: bool,
    /// Parse the captured stdout as a score.
    pub extract_score: bool,
    /// Count this iteration in the live run counter now.
    pub report_progress: bool,
}

/// A worker's state as data: its share and the outcome of every run so far.
pub struct WorkerView {
    pub share: nat,
    pub outcomes: Seq<bool>,
}

impl WorkerView {
    /// A worker never runs more iterations than its share.
    pub open spec fn valid(self) -> bool {
        self.outcomes.len() <= self.share
    }

    /// Whether the worker starts another run, given the cancellation flag.
    pub open spec fn spawns_next(self, cancelled: bool) -> bool {
        !cancelled && self.outcomes.len() < self.share
    }

    pub open spec fn completed(self) -> nat {
        self.outcomes.len()
    }

    pub open spec fn failed(self) -> nat {
        failures(self.outcomes)
    }
}

/// One worker's loop state: its share and its local counts.
pub struct Worker {
    share: u32,
    completed: u32,
    failed: u32,
    history: Ghost<Seq<bool>>,
}

impl View for Worker {
    type V = WorkerView;

    closed spec fn view(&self) -> WorkerView {
        WorkerView { share: self.share as nat, outcomes: self.history@ }
    }
}

impl Worker {
    pub closed spec fn wf(&self) -> bool {
        &&& self.history@.len() <= self.share
        &&& self.completed == self.history@.len()
        &&& self.failed == failures(self.history@)
    }

    /// A worker that has run nothing yet.
    pub fn new(share: u32) -> (w: Worker)
        ensures
            w.wf(),
            w@.share == share,
            w@.outcomes == Seq::<bool>::empty(),
    {
        Worker { share, completed: 0, failed: 0, history: Ghost(Seq::empty()) }
    }

    /// Spawn while the share is not used up and no cancellation came.
    pub fn next_action(&self, cancelled: bool) -> (a: WorkerAction)
        requires
            self.wf(),
        ensures
            a == (if self@.spawns_next(cancelled) {
                WorkerAction::Spawn
            } else {
                WorkerAction::Stop
            }),
    {
        if !cancelled && self.completed < self.share {
            WorkerAction::Spawn
        } else {
            WorkerAction::Stop
        }
    }

    /// Records the outcome of one completed run and says what follows it.
    pub fn record_outcome(&mut self, success: bool, flags: RunFlags) -> (f: FollowUp)
        requires
            old(self).wf(),
            old(self)@.outcomes.len() < old(self)@.share,
        ensures
            final(self).wf(),
            final(self)@.share == old(self)@.share,
            final(self)@.outcomes == old(self)@.outcomes.push(success),
            f == (FollowUp {
                echo_output: !flags.silent,
                extract_score: success && flags.score,
                report_progress: flags.progress,
            }),
    {
        proof {
            lemma_failures_push(self.history@, success);
            lemma_failures_bounded(self.history@);
        }
        if !success {
            self.failed = self.failed + 1;
        }
        self.completed = self.completed + 1;
        self.history = Ghost(self.history@.push(success));
        FollowUp {
            echo_output: !flags.silent,
            extract_score: success && flags.score,
            report_progress: flags.progress,
        }
    }

    pub fn share(&self) -> (r: u32)
        requires
            self.wf(),
        ensures
            r == self@.share,
    {
        self.share
    }

    /// The number of runs completed so far.
    pub fn completed(&self) -> (r: u32)
        requires
            self.wf(),
        ensures
            r == self@.completed(),
    {
        self.completed
    }

    /// The number of runs that failed so far.
    pub fn failed(&self) -> (r: u32)
        requires
            self.wf(),
        ensures
            r == self@.failed(),
    {
        self.failed
    }
}

} // verus!
