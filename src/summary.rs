//! The summary printed once every worker has finished.

use vstd::prelude::*;
use crate::aggregate::Aggregate;

verus! {

/// The character of a decimal digit.
pub open spec fn digit_char(d: nat) -> char
    recommends
        d < 10,
{
    (('0' as nat) + d) as char
}

/// The decimal form of `n`, without leading zeros.
pub open spec fn decimal(n: nat) -> Seq<char>
    decreases n,
{
    if n < 10 {
        seq![digit_char(n)]
    } else {
        decimal(n / 10).push(digit_char(n % 10))
    }
}

fn digit_str(d: u32) -> (s: &'static str)
    requires
        d < 10,
    ensures
        s@ == seq![digit_char(d as nat)],
{
    proof {
        reveal_strlit("0");
        reveal_strlit("1");
        reveal_strlit("2");
        reveal_strlit("3");
        reveal_strlit("4");
        reveal_strlit("5");
        reveal_strlit("6");
        reveal_strlit("7");
        reveal_strlit("8");
        reveal_strlit("9");
    }
    let s = match d {
        0 => "0",
        1 => "1",
        2 => "2",
        3 => "3",
        4 => "4",
        5 => "5",
        6 => "6",
        7 => "7",
        8 => "8",
        _ => "9",
    };
    assert(s@ =~= seq![digit_char(d as nat)]);
    s
}

/// Appends the decimal form of `n`.
pub fn push_decimal(s: &mut String, n: u32)
    ensures
        final(s)@ == old(s)@ + decimal(n as nat),
    decreases n,
{
    if n >= 10 {
        push_decimal(s, n / 10);
    }
    s.append(digit_str(n % 10));
    assert(decimal(n as nat) == if n < 10 {
        seq![digit_char(n as nat)]
    } else {
        decimal((n / 10) as nat).push(digit_char((n % 10) as nat))
    });
    assert(final(s)@ =~= old(s)@ + decimal(n as nat));
}

/// The first summary line, over the final counts.
pub open spec fn headline(run_times: nat, fail_times: nat) -> Seq<char> {
    if fail_times > 0 {
        "#tester finished. Failed "@ + decimal(fail_times) + " / "@ + decimal(run_times)
    } else {
        "#tester finished. No failure in "@ + decimal(run_times) + " runs."@
    }
}

/// The first summary line: the failures out of the runs, or that none failed.
pub fn summary_headline(a: &Aggregate) -> (r: String)
    ensures
        r@ == headline(a.run_times as nat, a.fail_times as nat),
{
    if a.fail_times > 0 {
        let mut s = String::from_str("#tester finished. Failed ");
        push_decimal(&mut s, a.fail_times);
        s.append(" / ");
        push_decimal(&mut s, a.run_times);
        s
    } else {
        let mut s = String::from_str("#tester finished. No failure in ");
        push_decimal(&mut s, a.run_times);
        s.append(" runs.");
        s
    }
}

/// The text before the average score: it names the exclusion of failed runs
/// when some failed.
pub open spec fn average_label_text(fail_times: nat) -> Seq<char> {
    if fail_times > 0 {
        "#tester average score(Ignore failed runs): "@
    } else {
        "#tester average score: "@
    }
}

pub fn average_label(a: &Aggregate) -> (r: String)
    ensures
        r@ == average_label_text(a.fail_times as nat),
{
    if a.fail_times > 0 {
        String::from_str("#tester average score(Ignore failed runs): ")
    } else {
        String::from_str("#tester average score: ")
    }
}

/// The number of runs that the score total is divided by: the successful ones.
/// There is no average when scoring is off or when no run succeeded.
pub open spec fn divisor_of(run_times: nat, fail_times: nat, scoring: bool) -> Option<nat> {
    if !scoring || run_times - fail_times <= 0 {
        None
    } else {
        Some((run_times - fail_times) as nat)
    }
}

/// The divisor of the average score, or `None` where the average line is left out.
pub fn average_divisor(a: &Aggregate, scoring: bool) -> (r: Option<u32>)
    requires
        a.fail_times <= a.run_times,
    ensures
        r matches Some(d) ==> divisor_of(a.run_times as nat, a.fail_times as nat, scoring)
            == Some(d as nat),
        r is None ==> divisor_of(a.run_times as nat, a.fail_times as nat, scoring) is None,
{
    let d = a.run_times - a.fail_times;
    if !scoring || d == 0 {
        None
    } else {
        Some(d)
    }
}

} // verus!
