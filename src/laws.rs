//! Properties of a whole run: the shares handed out, what the workers did with
//! them, and the counts that come out.

use vstd::prelude::*;
use crate::aggregate::{total_failures, total_runs};
use crate::distribution::{launched_count, share_of, worker_count};
use crate::summary::divisor_of;
use crate::worker::{failures, WorkerView};

verus! {

/// Every outcome of every worker, worker after worker.
pub open spec fn all_outcomes(ws: Seq<WorkerView>) -> Seq<bool>
    decreases ws.len(),
{
    if ws.len() == 0 {
        Seq::empty()
    } else {
        all_outcomes(ws.drop_last()) + ws.last().outcomes
    }
}

/// The workers `ws` are the launched workers of a run of `times` repetitions
/// on `threads` threads, each in the state its own loop keeps.
pub open spec fn launched_for(times: u32, threads: u8, ws: Seq<WorkerView>) -> bool {
    &&& ws.len() == launched_count(times as nat, threads)
    &&& forall|i: int|
        0 <= i < ws.len() ==> #[trigger] ws[i].share == share_of(
            times as nat,
            worker_count(threads),
            i as nat,
        ) && ws[i].valid()
}

/// The sum of the first `n` shares.
proof fn lemma_runs_against_shares(times: nat, workers: nat, ws: Seq<WorkerView>)
    requires
        workers > 0,
        ws.len() <= workers,
        forall|i: int|
            0 <= i < ws.len() ==> #[trigger] ws[i].share == share_of(times, workers, i as nat)
                && ws[i].valid(),
    ensures
        total_runs(ws) <= (times / workers) * ws.len() + if ws.len() < times % workers {
            ws.len()
        } else {
            times % workers
        },
        (forall|i: int| 0 <= i < ws.len() ==> #[trigger] ws[i].completed() == ws[i].share)
            ==> total_runs(ws) == (times / workers) * ws.len() + if ws.len() < times % workers {
            ws.len()
        } else {
            times % workers
        },
    decreases ws.len(),
{
    if ws.len() > 0 {
        let n = ws.len() - 1;
        let rest = ws.drop_last();
        assert forall|i: int| 0 <= i < rest.len() implies #[trigger] rest[i].share == share_of(
            times,
            workers,
            i as nat,
        ) && rest[i].valid() by {
            assert(rest[i] == ws[i]);
        }
        lemma_runs_against_shares(times, workers, rest);
        assert((times / workers) * (n + 1) == (times / workers) * n + times / workers)
            by (nonlinear_arith);
        assert(ws[n] == ws.last());
        assert(total_runs(ws) == total_runs(rest) + ws.last().completed());
        assert(ws.last().completed() <= ws.last().share);
        assert(ws.last().share == times / workers + if n < times % workers {
            1nat
        } else {
            0nat
        });
        if forall|i: int| 0 <= i < ws.len() ==> #[trigger] ws[i].completed() == ws[i].share {
            assert forall|i: int| 0 <= i < rest.len() implies #[trigger] rest[i].completed()
                == rest[i].share by {
                assert(rest[i] == ws[i]);
            }
        }
    }
}

proof fn lemma_launched_shares_sum(times: nat, threads: u8)
    ensures
        ({
            let w = worker_count(threads);
            let k = launched_count(times, threads);
            (times / w) * k + (if k < times % w {
                k
            } else {
                times % w
            }) == times
        }),
{
    let w = worker_count(threads);
    vstd::arithmetic::div_mod::lemma_fundamental_div_mod(times as int, w as int);
    vstd::arithmetic::mul::lemma_mul_is_commutative((times / w) as int, w as int);
    vstd::arithmetic::div_mod::lemma_mod_bound(times as int, w as int);
    if times < w {
        vstd::arithmetic::div_mod::lemma_basic_div(times as int, w as int);
        vstd::arithmetic::div_mod::lemma_small_mod(times, w);
    }
}

/// A run that nobody cancels completes every repetition exactly once: when
/// each launched worker has stopped of its own accord, the runs of all the
/// workers add up to `times`, however `threads` divides it.
pub proof fn lemma_uncancelled_run_completes_all(times: u32, threads: u8, ws: Seq<WorkerView>)
    requires
        launched_for(times, threads, ws),
        forall|i: int| 0 <= i < ws.len() ==> !(#[trigger] ws[i].spawns_next(false)),
    ensures
        total_runs(ws) == times,
{
    assert forall|i: int| 0 <= i < ws.len() implies #[trigger] ws[i].completed()
        == ws[i].share by {
        assert(!ws[i].spawns_next(false));
    }
    lemma_runs_against_shares(times as nat, worker_count(threads), ws);
    lemma_launched_shares_sum(times as nat, threads);
}

/// A cancelled run never exceeds its target: whatever the workers completed
/// before they stopped, their runs add up to at most `times`; and once the
/// flag is set, no worker starts another run.
pub proof fn lemma_cancelled_run_within_times(times: u32, threads: u8, ws: Seq<WorkerView>)
    requires
        launched_for(times, threads, ws),
    ensures
        total_runs(ws) <= times,
        forall|i: int| 0 <= i < ws.len() ==> !(#[trigger] ws[i].spawns_next(true)),
{
    lemma_runs_against_shares(times as nat, worker_count(threads), ws);
    lemma_launched_shares_sum(times as nat, threads);
}

proof fn lemma_failures_append(a: Seq<bool>, b: Seq<bool>)
    ensures
        failures(a + b) == failures(a) + failures(b),
    decreases b.len(),
{
    if b.len() == 0 {
        assert(a + b =~= a);
    } else {
        lemma_failures_append(a, b.drop_last());
        assert((a + b).drop_last() =~= a + b.drop_last());
    }
}

/// The failure count of all the workers together is the number of runs, over
/// all of them, whose child process did not succeed.
pub proof fn lemma_failures_count_failed_runs(ws: Seq<WorkerView>)
    ensures
        total_failures(ws) == failures(all_outcomes(ws)),
    decreases ws.len(),
{
    if ws.len() > 0 {
        lemma_failures_count_failed_runs(ws.drop_last());
        lemma_failures_append(all_outcomes(ws.drop_last()), ws.last().outcomes);
    }
}

proof fn lemma_no_failures_when_all_succeed(outcomes: Seq<bool>)
    requires
        forall|j: int| 0 <= j < outcomes.len() ==> #[trigger] outcomes[j],
    ensures
        failures(outcomes) == 0,
    decreases outcomes.len(),
{
    if outcomes.len() > 0 {
        lemma_no_failures_when_all_succeed(outcomes.drop_last());
    }
}

/// When every run succeeds, none is counted as failed, and the score total is
/// averaged over every run.
pub proof fn lemma_all_succeed_average_over_every_run(ws: Seq<WorkerView>)
    requires
        forall|i: int, j: int|
            0 <= i < ws.len() && 0 <= j < ws[i].outcomes.len() ==> #[trigger] ws[i].outcomes[j],
        total_runs(ws) > 0,
    ensures
        total_failures(ws) == 0,
        divisor_of(total_runs(ws), total_failures(ws), true) == Some(total_runs(ws)),
    decreases ws.len(),
{
    if ws.len() > 0 {
        let rest = ws.drop_last();
        assert forall|i: int, j: int|
            0 <= i < rest.len() && 0 <= j < rest[i].outcomes.len() implies #[trigger] rest[i].outcomes[j] by {
            assert(rest[i] == ws[i]);
        }
        if total_runs(rest) > 0 {
            lemma_all_succeed_average_over_every_run(rest);
        } else {
            lemma_no_failures_total(rest);
        }
        let last = ws.last();
        assert forall|j: int| 0 <= j < last.outcomes.len() implies #[trigger] last.outcomes[j] by {
            assert(ws[ws.len() - 1].outcomes[j]);
        }
        lemma_no_failures_when_all_succeed(last.outcomes);
    }
}

proof fn lemma_no_failures_total(ws: Seq<WorkerView>)
    requires
        total_runs(ws) == 0,
    ensures
        total_failures(ws) == 0,
{
    crate::aggregate::lemma_total_failures_bounded(ws);
}

} // verus!
