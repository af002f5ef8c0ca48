//! The summary of a load-generation run: each timed request's duration in,
//! the total and the average out. Sending the requests and timing them is the
//! caller's part.
use vstd::prelude::*;

verus! {

/// Requests sent before timing starts, so that caches and connections settle.
pub const WARMUP_ITERATIONS: usize = 40;

/// Requests whose durations are summarised.
pub const BENCHMARK_ITERATIONS: usize = 100;

/// The total and the average duration of timed runs, in nanoseconds.
#[derive(Clone, Copy, PartialEq, Eq, Structural, Debug)]
pub struct Summary {
    pub total_nanos: u128,
    pub average_nanos: u128,
}

/// The sum of `times`.
pub open spec fn total(times: Seq<u64>) -> nat
    decreases times.len(),
{
    if times.len() == 0 {
        0
    } else {
        total(times.drop_last()) + times.last() as nat
    }
}

proof fn lemma_total_bound(times: Seq<u64>)
    ensures
        total(times) <= times.len() * (u64::MAX as nat),
    decreases times.len(),
{
    if times.len() > 0 {
        lemma_total_bound(times.drop_last());
        assert((times.len() - 1) * (u64::MAX as nat) + u64::MAX == times.len() * (u64::MAX as nat))
            by (nonlinear_arith);
    }
}

/// Summarises the durations of the timed runs: their total and their average
/// rounded down; `None` where no run was timed.
pub fn benchmark(times: &[u64]) -> (r: Option<Summary>)
    ensures
        match r {
            Some(s) => times@.len() > 0 && s.total_nanos == total(times@) && s.average_nanos
                == total(times@) / times@.len(),
            None => times@.len() == 0,
        },
{
    let n: usize = times.len();
    if n == 0 {
        return None;
    }
    let mut sum: u128 = 0;
    let mut i: usize = 0;
    while i < n
        invariant
            n == times@.len(),
            i <= n,
            sum == total(times@.subrange(0, i as int)),
        decreases n - i,
    {
        let ghost prefix = times@.subrange(0, i + 1);
        assert(prefix.drop_last() =~= times@.subrange(0, i as int));
        proof {
            lemma_total_bound(prefix);
            assert(prefix.len() * (u64::MAX as nat) <= (usize::MAX as nat) * (u64::MAX as nat))
                by (nonlinear_arith)
                requires
                    prefix.len() <= usize::MAX,
            ;
        }
        sum = sum + times[i] as u128;
        i = i + 1;
    }
    assert(times@.subrange(0, n as int) =~= times@);
    Some(Summary { total_nanos: sum, average_nanos: sum / (n as u128) })
}

} // verus!
