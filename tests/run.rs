use tester::aggregate::{monitor_continues, tally, Aggregate};
use tester::distribution::{effective_threads, launched_shares, worker_shares};
use tester::summary::{average_divisor, average_label, push_decimal, summary_headline};
use tester::worker::{FollowUp, RunFlags, Worker, WorkerAction};

const QUIET: RunFlags = RunFlags { silent: true, score: false, progress: false };

/// Runs a worker to the end, taking each outcome from `outcome(k)` for the
/// k-th run overall, and stopping once `cancel_after` runs were made.
fn drive(share: u32, flags: RunFlags, first: u32, cancel_after: Option<u32>, outcome: &dyn Fn(u32) -> bool) -> Worker {
    let mut w = Worker::new(share);
    loop {
        let cancelled = cancel_after.map_or(false, |c| w.completed() >= c);
        match w.next_action(cancelled) {
            WorkerAction::Stop => break,
            WorkerAction::Spawn => {
                let k = first + w.completed();
                w.record_outcome(outcome(k), flags);
            }
        }
    }
    w
}

fn run_all(times: u32, threads: u8, outcome: &dyn Fn(u32) -> bool) -> (Vec<u32>, Aggregate) {
    let shares = launched_shares(times, threads);
    let mut workers = Vec::new();
    let mut first = 0;
    for &s in &shares {
        workers.push(drive(s, QUIET, first, None, outcome));
        first += s;
    }
    (shares, tally(&workers))
}

#[test]
fn true_ten_times_on_three_threads() {
    let (shares, agg) = run_all(10, 3, &|_| true);
    assert_eq!(shares, vec![4, 3, 3]);
    assert_eq!(agg.run_times, 10);
    assert_eq!(agg.fail_times, 0);
    let line = summary_headline(&agg);
    assert!(line.contains("No failure in 10 runs."));
    assert_eq!(line, "#tester finished. No failure in 10 runs.");
}

#[test]
fn alternating_exit_status_counts_odd_iterations() {
    let (shares, agg) = run_all(4, 1, &|k| k % 2 == 0);
    assert_eq!(shares, vec![4]);
    assert_eq!(agg.run_times, 4);
    assert_eq!(agg.fail_times, 2);
    assert_eq!(summary_headline(&agg), "#tester finished. Failed 2 / 4");
}

#[test]
fn constant_score_averages_to_itself() {
    let flags = RunFlags { silent: true, score: true, progress: false };
    let shares = launched_shares(4, 1);
    let mut w = Worker::new(shares[0]);
    let mut total: f64 = 0.0;
    while w.next_action(false) == WorkerAction::Spawn {
        let f = w.record_outcome(true, flags);
        assert!(f.extract_score);
        if f.extract_score {
            total += "2.5\n".trim().parse::<f64>().unwrap();
        }
    }
    let agg = tally(&vec![w]);
    let d = average_divisor(&agg, true).unwrap();
    assert_eq!(d, 4);
    assert_eq!(total, 2.5 * agg.run_times as f64);
    assert_eq!(total / d as f64, 2.5);
    assert_eq!(average_label(&agg), "#tester average score: ");
}

#[test]
fn every_repetition_runs_once_whatever_the_split() {
    for times in [0u32, 1, 2, 5, 7, 10, 64, 100, 257] {
        for threads in [0u8, 1, 2, 3, 4, 7, 16, 255] {
            let (shares, agg) = run_all(times, threads, &|_| true);
            assert_eq!(shares.iter().map(|&s| s as u64).sum::<u64>(), times as u64);
            assert_eq!(agg.run_times, times);
            assert_eq!(agg.fail_times, 0);
        }
    }
}

#[test]
fn remainder_goes_to_the_first_workers() {
    assert_eq!(worker_shares(7, 3), vec![3, 2, 2]);
    assert_eq!(worker_shares(11, 4), vec![3, 3, 3, 2]);
    assert_eq!(worker_shares(8, 4), vec![2, 2, 2, 2]);
    assert_eq!(worker_shares(2, 5), vec![1, 1, 0, 0, 0]);
    assert_eq!(launched_shares(2, 5), vec![1, 1]);
}

#[test]
fn zero_threads_means_one_worker() {
    assert_eq!(effective_threads(0), 1);
    assert_eq!(effective_threads(6), 6);
    assert_eq!(worker_shares(5, 0), vec![5]);
    assert_eq!(launched_shares(5, 0), vec![5]);
}

#[test]
fn zero_times_launches_nobody() {
    assert_eq!(launched_shares(0, 4), Vec::<u32>::new());
    assert_eq!(worker_shares(0, 3), vec![0, 0, 0]);
    let agg = tally(&Vec::new());
    assert_eq!(agg, Aggregate { run_times: 0, fail_times: 0 });
    assert_eq!(summary_headline(&agg), "#tester finished. No failure in 0 runs.");
    assert_eq!(average_divisor(&agg, true), None);
}

#[test]
fn largest_count_on_most_threads() {
    let shares = launched_shares(u32::MAX, 255);
    assert_eq!(shares.len(), 255);
    assert_eq!(shares.iter().map(|&s| s as u64).sum::<u64>(), u32::MAX as u64);
    assert_eq!(shares[0], u32::MAX / 255);
    assert_eq!(*shares.last().unwrap(), u32::MAX / 255);
}

#[test]
fn failures_are_counted_across_workers() {
    let (_, agg) = run_all(9, 2, &|k| k % 3 != 1);
    assert_eq!(agg.run_times, 9);
    assert_eq!(agg.fail_times, 3);
    assert_eq!(summary_headline(&agg), "#tester finished. Failed 3 / 9");
}

#[test]
fn cancellation_stops_every_worker() {
    let mut w = Worker::new(5);
    assert_eq!(w.next_action(true), WorkerAction::Stop);
    w.record_outcome(true, QUIET);
    assert_eq!(w.next_action(true), WorkerAction::Stop);
    assert_eq!(w.next_action(false), WorkerAction::Spawn);

    let shares = launched_shares(10, 3);
    let workers: Vec<Worker> = shares.iter().map(|&s| drive(s, QUIET, 0, Some(2), &|_| true)).collect();
    let agg = tally(&workers);
    assert_eq!(agg.run_times, 6);
    assert!(agg.run_times <= 10);
}

#[test]
fn worker_stops_at_its_share() {
    let w = drive(3, QUIET, 0, None, &|_| false);
    assert_eq!(w.share(), 3);
    assert_eq!(w.completed(), 3);
    assert_eq!(w.failed(), 3);
    assert_eq!(w.next_action(false), WorkerAction::Stop);
}

#[test]
fn follow_up_depends_on_flags_and_outcome() {
    let loud = RunFlags { silent: false, score: true, progress: true };
    let mut w = Worker::new(2);
    assert_eq!(
        w.record_outcome(true, loud),
        FollowUp { echo_output: true, extract_score: true, report_progress: true }
    );
    assert_eq!(
        w.record_outcome(false, loud),
        FollowUp { echo_output: true, extract_score: false, report_progress: true }
    );
    let mut v = Worker::new(1);
    assert_eq!(
        v.record_outcome(true, QUIET),
        FollowUp { echo_output: false, extract_score: false, report_progress: false }
    );
}

#[test]
fn average_of_successful_runs_only() {
    let agg = Aggregate { run_times: 10, fail_times: 4 };
    assert_eq!(average_divisor(&agg, true), Some(6));
    assert_eq!(average_divisor(&agg, false), None);
    assert_eq!(average_label(&agg), "#tester average score(Ignore failed runs): ");
}

#[test]
fn no_average_when_every_run_failed() {
    let agg = Aggregate { run_times: 3, fail_times: 3 };
    assert_eq!(average_divisor(&agg, true), None);
    assert_eq!(summary_headline(&agg), "#tester finished. Failed 3 / 3");
}

#[test]
fn aggregate_adds_counts() {
    let mut agg = Aggregate::new();
    agg.record_result(2);
    agg.record_run(5);
    agg.record_run(1);
    assert_eq!(agg.current_run_times(), 6);
    assert_eq!(agg.fail_times, 2);
}

#[test]
fn monitor_polls_until_done_or_cancelled() {
    assert!(monitor_continues(3, 10, false));
    assert!(!monitor_continues(10, 10, false));
    assert!(!monitor_continues(3, 10, true));
    assert!(!monitor_continues(0, 0, false));
}

#[test]
fn decimal_forms() {
    let mut s = String::from("n=");
    push_decimal(&mut s, 0);
    assert_eq!(s, "n=0");
    let mut t = String::new();
    push_decimal(&mut t, u32::MAX);
    assert_eq!(t, "4294967295");
    let mut u = String::new();
    push_decimal(&mut u, 1000);
    assert_eq!(u, "1000");
}
