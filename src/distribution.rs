//! Splitting a total repetition count across a fixed pool of workers.

use vstd::prelude::*;

verus! {

/// The number of workers that a requested thread count yields: zero counts as one.
pub open spec fn worker_count(threads: u8) -> nat {
    if threads == 0 {
        1
    } else {
        threads as nat
    }
}

/// The share of worker `i`: the even part of `times`, plus one for each of the
/// first `times % workers` workers.
pub open spec fn share_of(times: nat, workers: nat, i: nat) -> nat
    recommends
        workers > 0,
{
    times / workers + if i < times % workers {
        1nat
    } else {
        0nat
    }
}

/// The sum of a list of shares.
pub open spec fn sum_shares(s: Seq<u32>) -> int
    decreases s.len(),
{
    if s.len() == 0 {
        0
    } else {
        sum_shares(s.drop_last()) + s.last()
    }
}

proof fn lemma_sum_shares_push(s: Seq<u32>, x: u32)
    ensures
        sum_shares(s.push(x)) == sum_shares(s) + x,
{
    assert(s.push(x).drop_last() =~= s);
}

proof fn lemma_div_mod_parts(times: nat, workers: nat)
    requires
        workers > 0,
    ensures
        (times / workers) * workers + times % workers == times,
        times % workers < workers,
        times < workers ==> times / workers == 0 && times % workers == times,
{
    vstd::arithmetic::div_mod::lemma_fundamental_div_mod(times as int, workers as int);
    if times < workers {
        vstd::arithmetic::div_mod::lemma_basic_div(times as int, workers as int);
        vstd::arithmetic::div_mod::lemma_small_mod(times, workers);
    }
}

/// The worker count for a requested thread count, at least one.
pub fn effective_threads(threads: u8) -> (r: u8)
    ensures
        r as nat == worker_count(threads),
        r >= 1,
{
    if threads == 0 {
        1
    } else {
        threads
    }
}

/// The share of every worker, in creation order, zero shares included.
pub fn worker_shares(times: u32, threads: u8) -> (shares: Vec<u32>)
    ensures
        shares@.len() == worker_count(threads),
        forall|i: int|
            0 <= i < shares@.len() ==> shares@[i] as nat == share_of(
                times as nat,
                worker_count(threads),
                i as nat,
            ),
        sum_shares(shares@) == times,
{
    let workers: u32 = effective_threads(threads) as u32;
    let base: u32 = times / workers;
    let extra: u32 = times % workers;
    proof {
        lemma_div_mod_parts(times as nat, workers as nat);
        assert(base * workers <= times);
        assert(base <= base * workers) by (nonlinear_arith)
            requires
                workers >= 1,
        ;
    }
    let mut shares: Vec<u32> = Vec::new();
    let mut i: u32 = 0;
    while i < workers
        invariant
            workers as nat == worker_count(threads),
            base == times / workers,
            extra == times % workers,
            base * workers + extra == times,
            base <= base * workers,
            extra < workers,
            i <= workers,
            shares@.len() == i,
            forall|j: int|
                0 <= j < i ==> shares@[j] as nat == share_of(times as nat, workers as nat, j as nat),
            sum_shares(shares@) == base * i + if i < extra {
                i as int
            } else {
                extra as int
            },
        decreases workers - i,
    {
        let share: u32 = if i < extra {
            base + 1
        } else {
            base
        };
        proof {
            lemma_sum_shares_push(shares@, share);
            assert(base * (i + 1) == base * i + base) by (nonlinear_arith);
        }
        shares.push(share);
        i += 1;
    }
    shares
}

/// The number of workers that run: those whose share is not zero.
pub open spec fn launched_count(times: nat, threads: u8) -> nat {
    if times < worker_count(threads) {
        times
    } else {
        worker_count(threads)
    }
}

/// The shares of the workers that are launched, in creation order: every
/// worker's share up to the first that is zero.
pub fn launched_shares(times: u32, threads: u8) -> (shares: Vec<u32>)
    ensures
        shares@.len() == launched_count(times as nat, threads),
        forall|i: int|
            0 <= i < shares@.len() ==> shares@[i] as nat == share_of(
                times as nat,
                worker_count(threads),
                i as nat,
            ) && shares@[i] > 0,
        sum_shares(shares@) == times,
{
    let all = worker_shares(times, threads);
    let ghost t: nat = times as nat;
    let ghost workers = worker_count(threads);
    proof {
        lemma_div_mod_parts(t, workers);
    }
    let mut shares: Vec<u32> = Vec::new();
    let mut i: usize = 0;
    while i < all.len()
        invariant
            all@.len() == workers,
            workers == worker_count(threads),
            workers > 0,
            (t / workers) * workers + t % workers == t,
            t < workers ==> t / workers == 0 && t % workers == t,
            forall|j: int|
                0 <= j < all@.len() ==> all@[j] as nat == share_of(t, workers, j as nat),
            sum_shares(all@) == t,
            i <= all@.len(),
            i <= launched_count(t, threads),
            shares@ == all@.subrange(0, i as int),
            forall|j: int| 0 <= j < i ==> all@[j] > 0,
        ensures
            i == all@.len() || all@[i as int] == 0,
            i <= launched_count(t, threads),
        decreases all.len() - i,
    {
        if all[i] == 0 {
            break;
        }
        proof {
            if t < workers {
                assert(share_of(t, workers, i as nat) == if (i as nat) < t {
                    1nat
                } else {
                    0nat
                });
            }
        }
        shares.push(all[i]);
        i += 1;
        assert(shares@ =~= all@.subrange(0, i as int));
    }
    proof {
        if t < workers {
            assert(i == t) by {
                if i < t {
                    assert(share_of(t, workers, i as nat) == 1);
                }
            }
            lemma_sum_zero_tail(all@, i as int);
        } else {
            if i < all@.len() {
                assert(t / workers >= 1) by {
                    vstd::arithmetic::div_mod::lemma_div_is_ordered(
                        workers as int,
                        t as int,
                        workers as int,
                    );
                    vstd::arithmetic::div_mod::lemma_div_basics(workers as int);
                }
                assert(all@[i as int] > 0);
            }
            assert(all@.subrange(0, i as int) =~= all@);
        }
    }
    shares
}

/// Dropping a tail of zero shares leaves the sum unchanged.
proof fn lemma_sum_zero_tail(s: Seq<u32>, k: int)
    requires
        0 <= k <= s.len(),
        forall|j: int| k <= j < s.len() ==> s[j] == 0,
    ensures
        sum_shares(s.subrange(0, k)) == sum_shares(s),
    decreases s.len() - k,
{
    if k < s.len() {
        lemma_sum_zero_tail(s, k + 1);
        assert(s.subrange(0, k + 1).drop_last() =~= s.subrange(0, k));
    } else {
        assert(s.subrange(0, k) =~= s);
    }
}

} // verus!
