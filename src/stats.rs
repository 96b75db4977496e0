use crate::rate::Rate;
use vstd::arithmetic::div_mod::lemma_fundamental_div_mod;
use vstd::prelude::*;

verus! {

/// Size of one read, in bytes.
pub type ReadSize = usize;

/// Reads counted in one second.
pub type ReadsPerSecond = u64;

/// What one one-second bucket of a test saw; latencies in nanoseconds.
///
/// A bucket in which no read had a non-zero latency has `min_latency == u64::MAX`,
/// `max_latency == 0` and `avg_latency == 0`.
#[derive(Clone, Copy, Debug, PartialEq, Eq, Structural)]
pub struct ReadingStats {
    pub reads: ReadsPerSecond,
    pub min_latency: u64,
    pub max_latency: u64,
    pub avg_latency: u64,
}

/// The outcome of testing one read size for a whole phase.
///
/// `test_duration` is in nanoseconds; `avg_reads` and `throughput` are the exact
/// rates of reads and of bytes read over that duration.
#[derive(Clone, Debug)]
pub struct TestResult {
    pub read_size: ReadSize,
    pub avg_reads: Rate,
    pub throughput: Rate,
    pub read_statistics: Vec<ReadingStats>,
    pub total_reads: u64,
    pub test_duration: u64,
    pub max_reads: u64,
    pub min_reads: u64,
}

/// Lowest bucket minimum and highest bucket maximum; `(u64::MAX, 0)` without buckets,
/// as for a bucket without timed reads.
pub open spec fn latency_range(s: Seq<ReadingStats>) -> (u64, u64)
    decreases s.len(),
{
    if s.len() == 0 {
        (u64::MAX, 0)
    } else {
        let (lo, hi) = latency_range(s.drop_last());
        let last = s.last();
        (
            if last.min_latency < lo {
                last.min_latency
            } else {
                lo
            },
            if last.max_latency > hi {
                last.max_latency
            } else {
                hi
            },
        )
    }
}

/// Sum of the buckets' average latencies.
pub open spec fn sum_avg_latency(s: Seq<ReadingStats>) -> int
    decreases s.len(),
{
    if s.len() == 0 {
        0
    } else {
        sum_avg_latency(s.drop_last()) + s.last().avg_latency
    }
}

/// Test-wide `(min, avg, max)` latency: the range over the buckets, and the plain
/// mean of the buckets' averages (zero without buckets).
pub open spec fn latency_stats(s: Seq<ReadingStats>) -> (u64, u64, u64) {
    let (lo, hi) = latency_range(s);
    let avg = if s.len() == 0 {
        0
    } else {
        (sum_avg_latency(s) / (s.len() as int)) as u64
    };
    (lo, avg, hi)
}

/// Sum of the reads over the buckets.
pub open spec fn sum_reads(s: Seq<ReadingStats>) -> int
    decreases s.len(),
{
    if s.len() == 0 {
        0
    } else {
        sum_reads(s.drop_last()) + s.last().reads
    }
}

/// Fewest reads in any bucket (zero without buckets).
pub open spec fn min_reads_of(s: Seq<ReadingStats>) -> u64
    decreases s.len(),
{
    if s.len() == 0 {
        0
    } else if s.len() == 1 {
        s[0].reads
    } else {
        let m = min_reads_of(s.drop_last());
        if s.last().reads < m {
            s.last().reads
        } else {
            m
        }
    }
}

/// Most reads in any bucket (zero without buckets).
pub open spec fn max_reads_of(s: Seq<ReadingStats>) -> u64
    decreases s.len(),
{
    if s.len() == 0 {
        0
    } else {
        let m = max_reads_of(s.drop_last());
        if s.last().reads > m {
            s.last().reads
        } else {
            m
        }
    }
}

proof fn lemma_latency_range_bounds(s: Seq<ReadingStats>)
    ensures
        forall|i: int|
            0 <= i < s.len() ==> latency_range(s).0 <= #[trigger] s[i].min_latency
                && latency_range(s).1 >= s[i].max_latency,
        s.len() > 0 ==> exists|i: int| 0 <= i < s.len() && latency_range(s).0 == #[trigger] s[i].min_latency,
        s.len() > 0 ==> exists|i: int| 0 <= i < s.len() && latency_range(s).1 == #[trigger] s[i].max_latency,
    decreases s.len(),
{
    if s.len() > 0 {
        let init = s.drop_last();
        let last = s.len() - 1;
        lemma_latency_range_bounds(init);
        assert forall|i: int| 0 <= i < s.len() implies latency_range(s).0
            <= #[trigger] s[i].min_latency && latency_range(s).1 >= s[i].max_latency by {
            if i < s.len() - 1 {
                assert(s[i] == init[i]);
            }
        }
        if latency_range(s).0 == s[last].min_latency {
        } else {
            let i = choose|i: int| 0 <= i < init.len() && latency_range(init).0 == #[trigger] init[i].min_latency;
            assert(s[i] == init[i]);
        }
        if latency_range(s).1 == s[last].max_latency {
        } else {
            let i = choose|i: int| 0 <= i < init.len() && latency_range(init).1 == #[trigger] init[i].max_latency;
            assert(s[i] == init[i]);
        }
    }
}

pub(crate) proof fn lemma_sum_reads_nonneg(s: Seq<ReadingStats>)
    ensures
        sum_reads(s) >= 0,
    decreases s.len(),
{
    if s.len() > 0 {
        lemma_sum_reads_nonneg(s.drop_last());
    }
}

proof fn lemma_sum_avg_latency_bound(s: Seq<ReadingStats>)
    ensures
        0 <= sum_avg_latency(s) <= s.len() * (u64::MAX as int),
    decreases s.len(),
{
    if s.len() > 0 {
        lemma_sum_avg_latency_bound(s.drop_last());
    }
}

/// Every bucket's minimum and maximum latency lie within the test-wide range, whose
/// ends are a bucket's minimum and a bucket's maximum.
pub proof fn lemma_global_latency_bounds_buckets(r: TestResult, i: int)
    requires
        0 <= i < r.read_statistics@.len(),
    ensures
        latency_stats(r.read_statistics@).0 <= r.read_statistics@[i].min_latency,
        latency_stats(r.read_statistics@).2 >= r.read_statistics@[i].max_latency,
        exists|j: int|
            0 <= j < r.read_statistics@.len() && latency_stats(r.read_statistics@).0
                == #[trigger] r.read_statistics@[j].min_latency,
        exists|j: int|
            0 <= j < r.read_statistics@.len() && latency_stats(r.read_statistics@).2
                == #[trigger] r.read_statistics@[j].max_latency,
{
    let s = r.read_statistics@;
    lemma_latency_range_bounds(s);
    assert(latency_stats(s).0 == latency_range(s).0);
    assert(latency_range(s).0 <= s[i].min_latency);
    assert(latency_stats(s).2 == latency_range(s).1);
}

/// The derived latency figures depend on the stored buckets alone: computing them
/// again over the same buckets gives the same values.
pub proof fn lemma_latency_stats_repeatable(a: TestResult, b: TestResult)
    requires
        a.read_statistics@ == b.read_statistics@,
    ensures
        latency_stats(a.read_statistics@) == latency_stats(b.read_statistics@),
        latency_range(a.read_statistics@) == latency_range(b.read_statistics@),
{
}

impl TestResult {
    /// The average reads per second and the throughput are the totals over the duration.
    pub open spec fn rates_consistent(&self) -> bool {
        &&& self.avg_reads == (Rate { count: self.total_reads as u128, span: self.test_duration })
        &&& self.throughput == (Rate {
            count: (self.total_reads * self.read_size) as u128,
            span: self.test_duration,
        })
    }

    /// The read counts summarise the buckets: their sum, fewest and most.
    pub open spec fn summarizes_buckets(&self) -> bool {
        &&& self.total_reads == sum_reads(self.read_statistics@)
        &&& self.min_reads == min_reads_of(self.read_statistics@)
        &&& self.max_reads == max_reads_of(self.read_statistics@)
    }

    /// Builds a result, deriving the average reads per second and the throughput
    /// from the total reads over `test_duration` nanoseconds.
    pub fn new(
        read_size: ReadSize,
        total_reads: u64,
        test_duration: u64,
        max_reads: u64,
        min_reads: u64,
        read_statistics: Vec<ReadingStats>,
    ) -> (r: TestResult)
        ensures
            r.read_size == read_size,
            r.total_reads == total_reads,
            r.test_duration == test_duration,
            r.max_reads == max_reads,
            r.min_reads == min_reads,
            r.read_statistics@ == read_statistics@,
            r.rates_consistent(),
    {
        let avg_reads = Rate { count: total_reads as u128, span: test_duration };
        proof {
            assert(total_reads * read_size <= u64::MAX * u64::MAX) by (nonlinear_arith)
                requires
                    total_reads <= u64::MAX,
                    read_size <= u64::MAX,
            ;
        }
        let throughput = Rate { count: total_reads as u128 * read_size as u128, span: test_duration };
        TestResult {
            read_size,
            avg_reads,
            throughput,
            read_statistics,
            total_reads,
            test_duration,
            max_reads,
            min_reads,
        }
    }

    /// Test-wide `(min, max)` latency: the least bucket minimum and the greatest
    /// bucket maximum (`(u64::MAX, 0)` without buckets).
    pub fn get_latency_range(&self) -> (r: (u64, u64))
        ensures
            r == latency_range(self.read_statistics@),
            forall|i: int|
                0 <= i < self.read_statistics@.len() ==> r.0
                    <= #[trigger] self.read_statistics@[i].min_latency && r.1
                    >= self.read_statistics@[i].max_latency,
            self.read_statistics@.len() > 0 ==> exists|i: int|
                0 <= i < self.read_statistics@.len() && r.0
                    == #[trigger] self.read_statistics@[i].min_latency,
            self.read_statistics@.len() > 0 ==> exists|i: int|
                0 <= i < self.read_statistics@.len() && r.1
                    == #[trigger] self.read_statistics@[i].max_latency,
    {
        let mut lo: u64 = u64::MAX;
        let mut hi: u64 = 0;
        let mut i: usize = 0;
        while i < self.read_statistics.len()
            invariant
                i <= self.read_statistics@.len(),
                (lo, hi) == latency_range(self.read_statistics@.subrange(0, i as int)),
            decreases self.read_statistics@.len() - i,
        {
            let s = &self.read_statistics[i];
            assert(self.read_statistics@.subrange(0, i + 1).drop_last()
                =~= self.read_statistics@.subrange(0, i as int));
            if s.min_latency < lo {
                lo = s.min_latency;
            }
            if s.max_latency > hi {
                hi = s.max_latency;
            }
            i = i + 1;
        }
        assert(self.read_statistics@.subrange(0, i as int) =~= self.read_statistics@);
        proof {
            lemma_latency_range_bounds(self.read_statistics@);
        }
        (lo, hi)
    }

    /// Test-wide `(min, avg, max)` latency; the average is the mean of the buckets'
    /// averages, not a mean over single reads.
    pub fn get_latency_stats(&self) -> (r: (u64, u64, u64))
        ensures
            r == latency_stats(self.read_statistics@),
    {
        let (min, max) = self.get_latency_range();
        let n = self.read_statistics.len();
        if n == 0 {
            return (min, 0, max);
        }
        let mut total: u128 = 0;
        let mut i: usize = 0;
        while i < n
            invariant
                n == self.read_statistics@.len(),
                i <= n,
                total == sum_avg_latency(self.read_statistics@.subrange(0, i as int)),
            decreases n - i,
        {
            let s = &self.read_statistics[i];
            proof {
                let prefix = self.read_statistics@.subrange(0, i + 1);
                assert(prefix.drop_last() =~= self.read_statistics@.subrange(0, i as int));
                lemma_sum_avg_latency_bound(prefix);
                assert(i + 1 <= usize::MAX);
                assert((i + 1) * (u64::MAX as int) <= (usize::MAX as int) * (u64::MAX as int))
                    by (nonlinear_arith)
                    requires
                        i + 1 <= usize::MAX,
                ;
                assert((usize::MAX as int) * (u64::MAX as int) <= u128::MAX)
                    by (nonlinear_arith);
            }
            total = total + s.avg_latency as u128;
            i = i + 1;
        }
        assert(self.read_statistics@.subrange(0, n as int) =~= self.read_statistics@);
        proof {
            lemma_sum_avg_latency_bound(self.read_statistics@);
            let len = n as int;
            assert(total as int / len <= u64::MAX) by {
                assert(total as int <= len * (u64::MAX as int));
                lemma_fundamental_div_mod(total as int, len);
                assert((total as int / len) * len <= total as int) by (nonlinear_arith)
                    requires
                        total as int == len * (total as int / len) + (total as int % len),
                        0 <= total as int % len,
                ;
                assert(total as int / len <= u64::MAX) by (nonlinear_arith)
                    requires
                        (total as int / len) * len <= len * (u64::MAX as int),
                        len > 0,
                ;
            }
        }
        let avg = (total / n as u128) as u64;
        (min, avg, max)
    }
}

/// The average reads per second is exactly the total reads over the test's
/// duration, and the throughput is that same rate times the read size:
/// `throughput == avg_reads * read_size`, over the same duration.
pub proof fn lemma_result_rates(r: TestResult)
    requires
        r.rates_consistent(),
    ensures
        r.avg_reads.count == r.total_reads,
        r.avg_reads.span == r.test_duration,
        r.throughput.count == r.avg_reads.count * r.read_size,
        r.throughput.span == r.avg_reads.span,
{
    assert(r.total_reads * r.read_size <= u64::MAX * u64::MAX) by (nonlinear_arith)
        requires
            r.total_reads <= u64::MAX,
            r.read_size <= u64::MAX,
    ;
    assert(u64::MAX * u64::MAX <= u128::MAX) by (nonlinear_arith);
}

} // verus!
