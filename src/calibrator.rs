use crate::error::SpeedTestError;
use crate::rate::{lemma_rate_gt_after_le, rate_gt, Rate};
use crate::stats::ReadSize;
use vstd::prelude::*;

verus! {

/// How long each calibration probe reads: two seconds.
pub const PROBE_DURATION_NS: u64 = 2_000_000_000;

/// Failed reads in a row after which a probe gives up.
pub const MAX_CONSECUTIVE_ERRORS: u32 = 3;

/// Pause before a probe retries a failed read: 10 ms.
pub const BACKOFF_NS: u64 = 10_000_000;

/// What the reader does after one read of a probe.
#[derive(Clone, Copy, Debug, PartialEq, Eq, Structural)]
pub enum ProbeStep {
    /// Read again at once.
    Continue,
    /// Wait `BACKOFF_NS`, then read again.
    Backoff,
    /// Give up this probe.
    Abort,
}

/// A short calibration run for one candidate read size.
#[derive(Clone, Copy, Debug, PartialEq, Eq, Structural)]
pub struct Probe {
    pub size: ReadSize,
    pub reads: u64,
    pub consecutive_errors: u32,
}

/// What a completed probe measured: `reads` reads of `size` bytes in `elapsed` nanoseconds.
#[derive(Clone, Copy, Debug, PartialEq, Eq, Structural)]
pub struct ProbeReport {
    pub size: ReadSize,
    pub reads: u64,
    pub elapsed: u64,
}

/// The measure by which probes are ranked.
#[derive(Clone, Copy, Debug, PartialEq, Eq, Structural)]
pub enum Criterion {
    /// Bytes read per second.
    Throughput,
    /// Reads per second.
    ReadsPerSecond,
}

/// The rate of a probe under a criterion.
pub open spec fn probe_rate(p: ProbeReport, c: Criterion) -> Rate {
    match c {
        Criterion::Throughput => Rate { count: (p.reads * p.size) as u128, span: p.elapsed },
        Criterion::ReadsPerSecond => Rate { count: p.reads as u128, span: p.elapsed },
    }
}

/// A probe that ran to its end without giving up on failed reads, whatever it measured.
pub open spec fn completed(o: Result<ProbeReport, SpeedTestError>) -> bool {
    o is Ok
}

/// Outcome `i` is the first completed probe whose rate under `c` no completed probe beats.
pub open spec fn first_best(outs: Seq<Result<ProbeReport, SpeedTestError>>, i: int, c: Criterion) -> bool {
    &&& 0 <= i < outs.len()
    &&& completed(outs[i])
    &&& forall|j: int|
        0 <= j < outs.len() && completed(#[trigger] outs[j]) ==> !rate_gt(
            probe_rate(outs[j]->Ok_0, c),
            probe_rate(outs[i]->Ok_0, c),
        )
    &&& forall|j: int|
        0 <= j < i && completed(#[trigger] outs[j]) ==> rate_gt(
            probe_rate(outs[i]->Ok_0, c),
            probe_rate(outs[j]->Ok_0, c),
        )
}

impl Probe {
    /// A probe of `size`-byte reads that has not read yet.
    pub fn new(size: ReadSize) -> (r: Probe)
        ensures
            r == (Probe { size, reads: 0, consecutive_errors: 0 }),
    {
        Probe { size, reads: 0, consecutive_errors: 0 }
    }

    /// Whether the probe's time is over after `elapsed` nanoseconds.
    pub fn is_done(&self, elapsed: u64) -> (r: bool)
        ensures
            r == (elapsed >= PROBE_DURATION_NS),
    {
        elapsed >= PROBE_DURATION_NS
    }

    /// Whether the probe gave up after too many failed reads in a row.
    pub fn is_aborted(&self) -> (r: bool)
        ensures
            r == (self.consecutive_errors >= MAX_CONSECUTIVE_ERRORS),
    {
        self.consecutive_errors >= MAX_CONSECUTIVE_ERRORS
    }

    /// Takes the outcome of one read. A success counts and clears the failures in a
    /// row; a failure adds to them, and the probe gives up at the limit, else backs off.
    pub fn on_read(&mut self, ok: bool) -> (r: ProbeStep)
        requires
            old(self).consecutive_errors < MAX_CONSECUTIVE_ERRORS,
            ok ==> old(self).reads < u64::MAX,
        ensures
            final(self).size == old(self).size,
            ok ==> {
                &&& final(self).reads == old(self).reads + 1
                &&& final(self).consecutive_errors == 0
                &&& r == ProbeStep::Continue
            },
            !ok ==> {
                &&& final(self).reads == old(self).reads
                &&& final(self).consecutive_errors == old(self).consecutive_errors + 1
                &&& r == if final(self).consecutive_errors >= MAX_CONSECUTIVE_ERRORS {
                    ProbeStep::Abort
                } else {
                    ProbeStep::Backoff
                }
            },
    {
        if ok {
            self.reads = self.reads + 1;
            self.consecutive_errors = 0;
            ProbeStep::Continue
        } else {
            self.consecutive_errors = self.consecutive_errors + 1;
            if self.consecutive_errors >= MAX_CONSECUTIVE_ERRORS {
                ProbeStep::Abort
            } else {
                ProbeStep::Backoff
            }
        }
    }

    /// The probe's outcome once it stopped after `elapsed` nanoseconds: a read
    /// failure if it gave up, else what it measured.
    pub fn finish(&self, elapsed: u64) -> (r: Result<ProbeReport, SpeedTestError>)
        ensures
            self.consecutive_errors >= MAX_CONSECUTIVE_ERRORS ==> r == Err::<
                ProbeReport,
                SpeedTestError,
            >(SpeedTestError::ReadFailure { size: self.size, attempts: MAX_CONSECUTIVE_ERRORS }),
            self.consecutive_errors < MAX_CONSECUTIVE_ERRORS ==> r == Ok::<
                ProbeReport,
                SpeedTestError,
            >(ProbeReport { size: self.size, reads: self.reads, elapsed }),
    {
        if self.consecutive_errors >= MAX_CONSECUTIVE_ERRORS {
            Err(SpeedTestError::ReadFailure { size: self.size, attempts: MAX_CONSECUTIVE_ERRORS })
        } else {
            Ok(ProbeReport { size: self.size, reads: self.reads, elapsed })
        }
    }
}

impl ProbeReport {
    /// Bytes read over the probe's time.
    pub fn throughput(&self) -> (r: Rate)
        ensures
            r == probe_rate(*self, Criterion::Throughput),
    {
        proof {
            assert(self.reads * self.size <= u64::MAX * u64::MAX) by (nonlinear_arith)
                requires
                    self.reads <= u64::MAX,
                    self.size <= u64::MAX,
            ;
        }
        Rate { count: self.reads as u128 * self.size as u128, span: self.elapsed }
    }

    /// Reads over the probe's time.
    pub fn reads_rate(&self) -> (r: Rate)
        ensures
            r == probe_rate(*self, Criterion::ReadsPerSecond),
    {
        Rate { count: self.reads as u128, span: self.elapsed }
    }

    /// The probe's rate under `c`.
    pub fn rate(&self, c: Criterion) -> (r: Rate)
        ensures
            r == probe_rate(*self, c),
    {
        match c {
            Criterion::Throughput => self.throughput(),
            Criterion::ReadsPerSecond => self.reads_rate(),
        }
    }
}

/// A probe's throughput is its rate of reads times the read size, over the same
/// time: in bytes per second, `throughput == reads_per_sec * size`.
pub proof fn lemma_probe_rates_agree(p: ProbeReport)
    ensures
        probe_rate(p, Criterion::Throughput).count == probe_rate(p, Criterion::ReadsPerSecond).count
            * p.size,
        probe_rate(p, Criterion::Throughput).span == probe_rate(p, Criterion::ReadsPerSecond).span,
        probe_rate(p, Criterion::Throughput).count >= 0,
{
    assert(p.reads * p.size <= u64::MAX * u64::MAX) by (nonlinear_arith)
        requires
            p.reads <= u64::MAX,
            p.size <= u64::MAX,
    ;
    assert(u64::MAX * u64::MAX <= u128::MAX) by (nonlinear_arith);
    assert(0 <= p.reads * p.size) by (nonlinear_arith);
}

/// Index of the first completed probe that no completed probe beats under `c`, if any completed.
pub fn best_index(outcomes: &[Result<ProbeReport, SpeedTestError>], c: Criterion) -> (r: Option<
    usize,
>)
    ensures
        r is None <==> forall|j: int| 0 <= j < outcomes@.len() ==> !completed(#[trigger] outcomes@[j]),
        r matches Some(i) ==> first_best(outcomes@, i as int, c),
{
    let ghost outs = outcomes@;
    let mut best: Option<(usize, Rate)> = None;
    let mut i: usize = 0;
    while i < outcomes.len()
        invariant
            outs == outcomes@,
            i <= outs.len(),
            best is None <==> forall|j: int| 0 <= j < i ==> !completed(#[trigger] outs[j]),
            best matches Some((b, rb)) ==> {
                &&& b < i
                &&& completed(outs[b as int])
                &&& rb == probe_rate(outs[b as int]->Ok_0, c)
                &&& forall|j: int|
                    0 <= j < i && completed(#[trigger] outs[j]) ==> !rate_gt(
                        probe_rate(outs[j]->Ok_0, c),
                        rb,
                    )
                &&& forall|j: int|
                    0 <= j < b && completed(#[trigger] outs[j]) ==> rate_gt(
                        rb,
                        probe_rate(outs[j]->Ok_0, c),
                    )
            },
        decreases outs.len() - i,
    {
        if let Ok(p) = &outcomes[i] {
            let rate = p.rate(c);
            match best {
                None => {
                    best = Some((i, rate));
                },
                Some((b, rb)) => {
                    if rate.exceeds(&rb) {
                        proof {
                            assert forall|j: int|
                                0 <= j < i && completed(#[trigger] outs[j]) implies rate_gt(
                                rate,
                                probe_rate(outs[j]->Ok_0, c),
                            ) by {
                                lemma_rate_gt_after_le(probe_rate(outs[j]->Ok_0, c), rb, rate);
                            }
                        }
                        best = Some((i, rate));
                    }
                },
            }
        }
        i = i + 1;
    }
    match best {
        None => None,
        Some((b, _)) => Some(b),
    }
}

/// Picks, from the probes' outcomes in candidate order, the size with the highest
/// throughput and the size with the most reads per second (the first such on a tie).
/// Fails with `NoWorkingSize` exactly when every probe failed.
pub fn determine_best_sizes(outcomes: &[Result<ProbeReport, SpeedTestError>]) -> (r: Result<
    (ReadSize, ReadSize),
    SpeedTestError,
>)
    ensures
        r is Err <==> forall|j: int| 0 <= j < outcomes@.len() ==> !completed(#[trigger] outcomes@[j]),
        r is Err ==> r == Err::<(ReadSize, ReadSize), SpeedTestError>(SpeedTestError::NoWorkingSize),
        r matches Ok((t, n)) ==> {
            &&& exists|i: int|
                first_best(outcomes@, i, Criterion::Throughput) && t == outcomes@[i]->Ok_0.size
            &&& exists|i: int|
                first_best(outcomes@, i, Criterion::ReadsPerSecond) && n == outcomes@[i]->Ok_0.size
        },
{
    let by_throughput = best_index(outcomes, Criterion::Throughput);
    let by_reads = best_index(outcomes, Criterion::ReadsPerSecond);
    match (by_throughput, by_reads) {
        (Some(t), Some(n)) => {
            let ts = match &outcomes[t] {
                Ok(p) => p.size,
                Err(_) => 0,
            };
            let ns = match &outcomes[n] {
                Ok(p) => p.size,
                Err(_) => 0,
            };
            proof {
                assert(first_best(outcomes@, t as int, Criterion::Throughput));
                assert(first_best(outcomes@, n as int, Criterion::ReadsPerSecond));
            }
            Ok((ts, ns))
        },
        _ => Err(SpeedTestError::NoWorkingSize),
    }
}

/// The read sizes that calibration offers, in the order they are probed.
pub fn candidate_sizes() -> (r: Vec<ReadSize>)
    ensures
        r@ == seq![4096usize, 8192, 16384, 32768],
{
    vec![4096, 8192, 16384, 32768]
}

/// The sizes measured in the main phase: both best sizes, or one when they coincide.
pub fn sizes_to_test(best_throughput_size: ReadSize, best_reads_size: ReadSize) -> (r: Vec<
    ReadSize,
>)
    ensures
        best_throughput_size != best_reads_size ==> r@ == seq![best_throughput_size, best_reads_size],
        best_throughput_size == best_reads_size ==> r@ == seq![best_throughput_size],
{
    if best_throughput_size != best_reads_size {
        vec![best_throughput_size, best_reads_size]
    } else {
        vec![best_throughput_size]
    }
}

/// For which criteria a tested size was the best.
#[derive(Clone, Copy, Debug, PartialEq, Eq, Structural)]
pub enum BestFor {
    Both,
    Throughput,
    Reads,
    Neither,
}

impl BestFor {
    /// Classifies `size` against the best-throughput and best-reads sizes.
    pub fn classify(size: ReadSize, best_throughput_size: ReadSize, best_reads_size: ReadSize) -> (r:
        BestFor)
        ensures
            r == if size == best_throughput_size && size == best_reads_size {
                BestFor::Both
            } else if size == best_throughput_size {
                BestFor::Throughput
            } else if size == best_reads_size {
                BestFor::Reads
            } else {
                BestFor::Neither
            },
    {
        if size == best_throughput_size && size == best_reads_size {
            BestFor::Both
        } else if size == best_throughput_size {
            BestFor::Throughput
        } else if size == best_reads_size {
            BestFor::Reads
        } else {
            BestFor::Neither
        }
    }

    /// The label of the class in a results table.
    pub fn label(&self) -> (r: &'static str)
        ensures
            r@ == match *self {
                BestFor::Both => "Both"@,
                BestFor::Throughput => "Throughput"@,
                BestFor::Reads => "Reads"@,
                BestFor::Neither => ""@,
            },
    {
        match self {
            BestFor::Both => "Both",
            BestFor::Throughput => "Throughput",
            BestFor::Reads => "Reads",
            BestFor::Neither => "",
        }
    }
}

} // verus!
