use crate::error::SpeedTestError;
use crate::rate::{per_second, per_second_rounded, Rate, NANOS_PER_SEC};
use crate::stats::{
    lemma_sum_reads_nonneg, max_reads_of, min_reads_of, sum_reads, ReadSize, ReadingStats, TestResult,
};
use vstd::arithmetic::div_mod::lemma_fundamental_div_mod;
use vstd::prelude::*;

verus! {

/// Length of a live-progress interval: 100 ms.
pub const REPORT_INTERVAL_NS: u64 = 100_000_000;

/// Length of a statistics bucket: one second.
pub const BUCKET_NS: u64 = 1_000_000_000;

/// How long the reader keeps going past the phase's duration: 100 ms.
pub const READ_MARGIN_NS: u64 = 100_000_000;

/// Number of reads with a non-zero latency.
pub open spec fn timed_count(s: Seq<u64>) -> nat
    decreases s.len(),
{
    if s.len() == 0 {
        0
    } else {
        timed_count(s.drop_last()) + if s.last() > 0 {
            1nat
        } else {
            0nat
        }
    }
}

/// Sum of the latencies.
pub open spec fn latency_sum(s: Seq<u64>) -> int
    decreases s.len(),
{
    if s.len() == 0 {
        0
    } else {
        latency_sum(s.drop_last()) + s.last()
    }
}

/// Smallest non-zero latency, `u64::MAX` when there is none.
pub open spec fn min_timed(s: Seq<u64>) -> u64
    decreases s.len(),
{
    if s.len() == 0 {
        u64::MAX
    } else {
        let m = min_timed(s.drop_last());
        if s.last() > 0 && s.last() < m {
            s.last()
        } else {
            m
        }
    }
}

/// Largest latency, zero when there is none.
pub open spec fn max_latency_in(s: Seq<u64>) -> u64
    decreases s.len(),
{
    if s.len() == 0 {
        0
    } else {
        let m = max_latency_in(s.drop_last());
        if s.last() > m {
            s.last()
        } else {
            m
        }
    }
}

/// Mean of the non-zero latencies (rounded down), zero when there is none.
pub open spec fn avg_latency_in(s: Seq<u64>) -> u64 {
    if timed_count(s) == 0 {
        0
    } else {
        (latency_sum(s) / (timed_count(s) as int)) as u64
    }
}

/// The figures of a bucket that holds the reads with latencies `s`.
pub open spec fn bucket_stats(s: Seq<u64>) -> ReadingStats {
    ReadingStats {
        reads: s.len() as u64,
        min_latency: min_timed(s),
        max_latency: max_latency_in(s),
        avg_latency: avg_latency_in(s),
    }
}

/// A live progress report, emitted when an interval ends.
///
/// `elapsed` is the time since the phase started and `span` the length of the
/// interval, both in nanoseconds; the latency figures are those of the interval.
#[derive(Clone, Copy, Debug, PartialEq, Eq, Structural)]
pub struct Progress {
    pub elapsed: u64,
    pub span: u64,
    pub read_size: ReadSize,
    pub reads: u64,
    pub reads_per_sec: u64,
    pub throughput: Rate,
    pub min_latency: u64,
    pub max_latency: u64,
    pub avg_latency: u64,
}

/// The report for an interval of `span` nanoseconds ending at `elapsed`, whose reads had latencies `s`.
pub open spec fn progress_of(read_size: ReadSize, s: Seq<u64>, elapsed: u64, span: u64) -> Progress {
    Progress {
        elapsed,
        span,
        read_size,
        reads: s.len() as u64,
        reads_per_sec: per_second(s.len() as int, span as int) as u64,
        throughput: Rate { count: (s.len() * read_size) as u128, span },
        min_latency: min_timed(s),
        max_latency: max_latency_in(s),
        avg_latency: avg_latency_in(s),
    }
}

/// At least `length` nanoseconds have passed from `since` to `now`.
pub open spec fn window_due(since: u64, now: u64, length: u64) -> bool {
    now >= since && now - since >= length
}

/// The buckets of a finished phase: the complete ones, then the partial last one if it saw any read.
pub open spec fn flushed(readings: Seq<ReadingStats>, open_bucket: Seq<u64>) -> Seq<ReadingStats> {
    if open_bucket.len() > 0 {
        readings.push(bucket_stats(open_bucket))
    } else {
        readings
    }
}

proof fn lemma_window_push(s: Seq<u64>, x: u64)
    ensures
        s.push(x).drop_last() == s,
        s.push(x).last() == x,
{
    assert(s.push(x).drop_last() =~= s);
}

proof fn lemma_timed_bounds(s: Seq<u64>)
    ensures
        timed_count(s) <= s.len(),
        0 <= latency_sum(s) <= timed_count(s) * (u64::MAX as int),
    decreases s.len(),
{
    if s.len() > 0 {
        lemma_timed_bounds(s.drop_last());
    }
}

proof fn lemma_avg_fits(s: Seq<u64>)
    ensures
        timed_count(s) > 0 ==> latency_sum(s) / (timed_count(s) as int) <= u64::MAX,
{
    lemma_timed_bounds(s);
    if timed_count(s) > 0 {
        let t = timed_count(s) as int;
        let total = latency_sum(s);
        lemma_fundamental_div_mod(total, t);
        assert((total / t) * t <= total) by (nonlinear_arith)
            requires
                total == t * (total / t) + (total % t),
                0 <= total % t,
        ;
        assert(total / t <= u64::MAX) by (nonlinear_arith)
            requires
                (total / t) * t <= t * (u64::MAX as int),
                t > 0,
        ;
    }
}

/// Running counts over the reads of one window (an interval or a bucket).
struct LatencyWindow {
    reads: u64,
    timed: u64,
    total_latency: u128,
    min_latency: u64,
    max_latency: u64,
    samples: Ghost<Seq<u64>>,
}

impl LatencyWindow {
    spec fn view(&self) -> Seq<u64> {
        self.samples@
    }

    spec fn wf(&self) -> bool {
        &&& self.reads == self.samples@.len()
        &&& self.timed == timed_count(self.samples@)
        &&& self.total_latency == latency_sum(self.samples@)
        &&& self.min_latency == min_timed(self.samples@)
        &&& self.max_latency == max_latency_in(self.samples@)
    }

    fn new() -> (w: LatencyWindow)
        ensures
            w.wf(),
            w@ == Seq::<u64>::empty(),
    {
        LatencyWindow {
            reads: 0,
            timed: 0,
            total_latency: 0,
            min_latency: u64::MAX,
            max_latency: 0,
            samples: Ghost(Seq::empty()),
        }
    }

    fn push(&mut self, latency: u64)
        requires
            old(self).wf(),
            old(self)@.len() < u64::MAX,
        ensures
            final(self).wf(),
            final(self)@ == old(self)@.push(latency),
    {
        proof {
            lemma_window_push(self.samples@, latency);
            lemma_timed_bounds(self.samples@);
            assert(timed_count(self.samples@) * (u64::MAX as int) <= (u64::MAX as int) * (
            u64::MAX as int)) by (nonlinear_arith)
                requires
                    timed_count(self.samples@) <= u64::MAX,
            ;
            assert((u64::MAX as int) * (u64::MAX as int) + u64::MAX <= u128::MAX)
                by (nonlinear_arith);
        }
        if latency > 0 {
            if latency > self.max_latency {
                self.max_latency = latency;
            }
            if latency < self.min_latency {
                self.min_latency = latency;
            }
            self.total_latency = self.total_latency + latency as u128;
            self.timed = self.timed + 1;
        }
        self.reads = self.reads + 1;
        self.samples = Ghost(self.samples@.push(latency));
    }

    fn avg_latency(&self) -> (r: u64)
        requires
            self.wf(),
        ensures
            r == avg_latency_in(self@),
    {
        proof {
            lemma_avg_fits(self@);
        }
        if self.timed > 0 {
            (self.total_latency / self.timed as u128) as u64
        } else {
            0
        }
    }

    fn stats(&self) -> (r: ReadingStats)
        requires
            self.wf(),
        ensures
            r == bucket_stats(self@),
    {
        ReadingStats {
            reads: self.reads,
            min_latency: self.min_latency,
            max_latency: self.max_latency,
            avg_latency: self.avg_latency(),
        }
    }
}

/// Whether the reader of a phase lasting `duration` nanoseconds keeps reading at
/// `elapsed` nanoseconds: it reads for the duration plus a short margin.
pub fn producer_should_continue(elapsed: u64, duration: u64) -> (r: bool)
    ensures
        r == (elapsed < duration + READ_MARGIN_NS),
{
    if duration > u64::MAX - READ_MARGIN_NS {
        true
    } else {
        elapsed < duration + READ_MARGIN_NS
    }
}

/// Folds the latencies of one phase's reads, in the order they were made, into
/// live progress reports every interval and one `ReadingStats` per second.
///
/// Times are nanoseconds since the phase started.
pub struct StatAggregator {
    read_size: ReadSize,
    last_report: u64,
    last_second: u64,
    interval: LatencyWindow,
    bucket: LatencyWindow,
    total_reads: u64,
    max_reads: u64,
    min_reads: u64,
    readings: Vec<ReadingStats>,
}

impl StatAggregator {
    /// Size of the reads being measured.
    pub closed spec fn spec_read_size(&self) -> ReadSize {
        self.read_size
    }

    /// Start of the current interval.
    pub closed spec fn spec_last_report(&self) -> u64 {
        self.last_report
    }

    /// Start of the current bucket.
    pub closed spec fn spec_last_second(&self) -> u64 {
        self.last_second
    }

    /// Latencies of the reads in the current interval.
    pub closed spec fn spec_interval(&self) -> Seq<u64> {
        self.interval@
    }

    /// Latencies of the reads in the current, still open bucket.
    pub closed spec fn spec_bucket(&self) -> Seq<u64> {
        self.bucket@
    }

    /// The buckets completed so far.
    pub closed spec fn spec_readings(&self) -> Seq<ReadingStats> {
        self.readings@
    }

    /// Reads recorded so far.
    pub closed spec fn spec_total_reads(&self) -> u64 {
        self.total_reads
    }

    /// The running counts agree with the reads seen: the total is the completed
    /// buckets' reads plus the open bucket's, and the fewest and most reads per
    /// bucket are those of the completed buckets.
    pub closed spec fn wf(&self) -> bool {
        &&& self.interval.wf()
        &&& self.bucket.wf()
        &&& self.total_reads == sum_reads(self.readings@) + self.bucket@.len()
        &&& self.interval@.len() <= self.total_reads
        &&& self.min_reads == min_reads_of(self.readings@)
        &&& self.max_reads == max_reads_of(self.readings@)
    }

    /// The open bucket and the current interval hold no more reads than were recorded.
    pub proof fn lemma_windows_within_total(&self)
        requires
            self.wf(),
        ensures
            self.spec_bucket().len() <= self.spec_total_reads(),
            self.spec_interval().len() <= self.spec_total_reads(),
    {
        lemma_sum_reads_nonneg(self.readings@);
    }

    /// An aggregator for a phase that reads `read_size` bytes at a time, starting at time zero.
    pub fn new(read_size: ReadSize) -> (r: StatAggregator)
        ensures
            r.wf(),
            r.spec_read_size() == read_size,
            r.spec_last_report() == 0,
            r.spec_last_second() == 0,
            r.spec_interval() == Seq::<u64>::empty(),
            r.spec_bucket() == Seq::<u64>::empty(),
            r.spec_readings() == Seq::<ReadingStats>::empty(),
            r.spec_total_reads() == 0,
    {
        StatAggregator {
            read_size,
            last_report: 0,
            last_second: 0,
            interval: LatencyWindow::new(),
            bucket: LatencyWindow::new(),
            total_reads: 0,
            max_reads: 0,
            min_reads: 0,
            readings: Vec::new(),
        }
    }

    /// Reads recorded so far.
    pub fn total_reads(&self) -> (r: u64)
        ensures
            r == self.spec_total_reads(),
    {
        self.total_reads
    }

    /// The buckets completed so far.
    pub fn readings(&self) -> (r: &Vec<ReadingStats>)
        ensures
            r@ == self.spec_readings(),
    {
        &self.readings
    }

    /// Records one read of latency `latency` that ended at `now`.
    ///
    /// The read joins the current interval and bucket. When the interval has lasted
    /// `REPORT_INTERVAL_NS`, its report is returned and a new interval starts at `now`.
    /// When the bucket has lasted `BUCKET_NS`, its `ReadingStats` is appended and a
    /// new bucket starts at `now`. A read with zero latency counts as a read but
    /// not towards the latency figures.
    pub fn record(&mut self, latency: u64, now: u64) -> (r: Option<Progress>)
        requires
            old(self).wf(),
            old(self).spec_total_reads() < u64::MAX,
        ensures
            final(self).wf(),
            final(self).spec_read_size() == old(self).spec_read_size(),
            final(self).spec_total_reads() == old(self).spec_total_reads() + 1,
            window_due(old(self).spec_last_report(), now, REPORT_INTERVAL_NS) ==> {
                &&& r == Some(
                    progress_of(
                        old(self).spec_read_size(),
                        old(self).spec_interval().push(latency),
                        now,
                        (now - old(self).spec_last_report()) as u64,
                    ),
                )
                &&& final(self).spec_interval() == Seq::<u64>::empty()
                &&& final(self).spec_last_report() == now
            },
            !window_due(old(self).spec_last_report(), now, REPORT_INTERVAL_NS) ==> {
                &&& r is None
                &&& final(self).spec_interval() == old(self).spec_interval().push(latency)
                &&& final(self).spec_last_report() == old(self).spec_last_report()
            },
            window_due(old(self).spec_last_second(), now, BUCKET_NS) ==> {
                &&& final(self).spec_readings() == old(self).spec_readings().push(
                    bucket_stats(old(self).spec_bucket().push(latency)),
                )
                &&& final(self).spec_bucket() == Seq::<u64>::empty()
                &&& final(self).spec_last_second() == now
            },
            !window_due(old(self).spec_last_second(), now, BUCKET_NS) ==> {
                &&& final(self).spec_readings() == old(self).spec_readings()
                &&& final(self).spec_bucket() == old(self).spec_bucket().push(latency)
                &&& final(self).spec_last_second() == old(self).spec_last_second()
            },
    {
        proof {
            lemma_sum_reads_nonneg(self.readings@);
        }
        self.interval.push(latency);
        self.bucket.push(latency);
        self.total_reads = self.total_reads + 1;

        let mut report: Option<Progress> = None;
        if now >= self.last_report && now - self.last_report >= REPORT_INTERVAL_NS {
            let span = now - self.last_report;
            let reads = self.interval.reads;
            proof {
                assert(reads * self.read_size <= u64::MAX * u64::MAX) by (nonlinear_arith)
                    requires
                        reads <= u64::MAX,
                        self.read_size <= u64::MAX,
                ;
            }
            report = Some(
                Progress {
                    elapsed: now,
                    span,
                    read_size: self.read_size,
                    reads,
                    reads_per_sec: per_second_rounded(reads, span),
                    throughput: Rate { count: reads as u128 * self.read_size as u128, span },
                    min_latency: self.interval.min_latency,
                    max_latency: self.interval.max_latency,
                    avg_latency: self.interval.avg_latency(),
                },
            );
            self.interval = LatencyWindow::new();
            self.last_report = now;
        }
        if now >= self.last_second && now - self.last_second >= BUCKET_NS {
            self.close_bucket();
            self.last_second = now;
        }
        report
    }

    /// Appends the open bucket's `ReadingStats` and starts an empty bucket.
    fn close_bucket(&mut self)
        requires
            old(self).bucket.wf(),
            old(self).total_reads == sum_reads(old(self).readings@) + old(self).bucket@.len(),
            old(self).min_reads == min_reads_of(old(self).readings@),
            old(self).max_reads == max_reads_of(old(self).readings@),
        ensures
            final(self).bucket.wf(),
            final(self).bucket@ == Seq::<u64>::empty(),
            final(self).readings@ == old(self).readings@.push(bucket_stats(old(self).bucket@)),
            final(self).total_reads == sum_reads(final(self).readings@),
            final(self).min_reads == min_reads_of(final(self).readings@),
            final(self).max_reads == max_reads_of(final(self).readings@),
            final(self).total_reads == old(self).total_reads,
            final(self).interval == old(self).interval,
            final(self).read_size == old(self).read_size,
            final(self).last_report == old(self).last_report,
            final(self).last_second == old(self).last_second,
    {
        let stats = self.bucket.stats();
        let reads = stats.reads;
        if self.readings.len() == 0 {
            self.min_reads = reads;
        } else if reads < self.min_reads {
            self.min_reads = reads;
        }
        if reads > self.max_reads {
            self.max_reads = reads;
        }
        let ghost before = self.readings@;
        self.readings.push(stats);
        proof {
            assert(self.readings@.drop_last() =~= before);
        }
        self.bucket = LatencyWindow::new();
    }

    /// Ends the phase: the partial last bucket, if it saw any read, is appended as a
    /// bucket of its own, and the result is built over `test_duration` nanoseconds.
    ///
    /// The result's reads are exactly the buckets' reads summed; its fewest and most
    /// reads per bucket come from all buckets, so a phase that never completed a
    /// second reports its single bucket's reads as both.
    pub fn finish(self, test_duration: u64) -> (r: TestResult)
        requires
            self.wf(),
        ensures
            r.read_size == self.spec_read_size(),
            r.test_duration == test_duration,
            r.read_statistics@ == flushed(self.spec_readings(), self.spec_bucket()),
            r.total_reads == self.spec_total_reads(),
            r.rates_consistent(),
            r.summarizes_buckets(),
            self.spec_bucket().len() > 0 ==> r.read_statistics@.last().reads
                == self.spec_bucket().len() > 0,
            self.spec_readings().len() == 0 && self.spec_bucket().len() > 0 ==> {
                &&& r.read_statistics@.len() == 1
                &&& r.min_reads == r.read_statistics@[0].reads
                &&& r.max_reads == r.read_statistics@[0].reads
                &&& r.min_reads == self.spec_bucket().len() > 0
            },
    {
        proof {
            self.lemma_windows_within_total();
        }
        let mut this = self;
        if this.bucket.reads > 0 {
            this.close_bucket();
            proof {
                if self.readings@.len() == 0 {
                    let all = this.readings@;
                    assert(all.drop_last() =~= Seq::<ReadingStats>::empty());
                    assert(max_reads_of(all.drop_last()) == 0);
                    assert(max_reads_of(all) == all[0].reads);
                    assert(min_reads_of(all) == all[0].reads);
                }
            }
        }
        TestResult::new(
            this.read_size,
            this.total_reads,
            test_duration,
            this.max_reads,
            this.min_reads,
            this.readings,
        )
    }

    /// Ends the phase given whether its reader stopped on a failed read. A failed
    /// read is fatal to the whole phase: no result is built from what was seen.
    pub fn conclude(self, read_failed: bool, test_duration: u64) -> (r: Result<
        TestResult,
        SpeedTestError,
    >)
        requires
            self.wf(),
        ensures
            read_failed ==> r == Err::<TestResult, SpeedTestError>(
                SpeedTestError::ReadFailure { size: self.spec_read_size(), attempts: 1 },
            ),
            !read_failed ==> (r matches Ok(t) && {
                &&& t.read_size == self.spec_read_size()
                &&& t.test_duration == test_duration
                &&& t.read_statistics@ == flushed(self.spec_readings(), self.spec_bucket())
                &&& t.total_reads == self.spec_total_reads()
                &&& t.rates_consistent()
                &&& t.summarizes_buckets()
            }),
    {
        if read_failed {
            Err(SpeedTestError::ReadFailure { size: self.read_size, attempts: 1 })
        } else {
            Ok(self.finish(test_duration))
        }
    }
}

} // verus!
