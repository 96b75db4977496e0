use speedtest::aggregator::{producer_should_continue, Progress, StatAggregator};
use speedtest::calibrator::{
    candidate_sizes, determine_best_sizes, sizes_to_test, BestFor, Probe, ProbeReport,
    ProbeStep, BACKOFF_NS, MAX_CONSECUTIVE_ERRORS,
};
use speedtest::cli::Cli;
use speedtest::connector::Connector;
use speedtest::console::{log_to_console, ConsoleWindow, MAX_LOG_ENTRIES};
use speedtest::error::SpeedTestError;
use speedtest::rate::{per_second_rounded, Rate, BYTES_PER_MIB, NANOS_PER_SEC};
use speedtest::session::{collect_enabled_sizes, handle_test_error, log_test_start};
use speedtest::stats::{ReadingStats, TestResult};
use speedtest::text::{decimal_string, get_size_label};

const MS: u64 = 1_000_000;

fn mib_per_sec(r: &Rate) -> f64 {
    r.count as f64 * NANOS_PER_SEC as f64 / r.span as f64 / BYTES_PER_MIB as f64
}

fn per_sec(r: &Rate) -> f64 {
    r.count as f64 * NANOS_PER_SEC as f64 / r.span as f64
}

fn bucket(reads: u64, min: u64, max: u64, avg: u64) -> ReadingStats {
    ReadingStats { reads, min_latency: min, max_latency: max, avg_latency: avg }
}

/// Feeds reads of constant latency `latency` ending every `latency` ns, `n` times.
fn feed_constant(agg: &mut StatAggregator, latency: u64, n: u64) -> Vec<Progress> {
    let mut reports = Vec::new();
    for k in 1..=n {
        if let Some(p) = agg.record(latency, k * latency) {
            reports.push(p);
        }
    }
    reports
}

#[test]
fn per_second_rounds_to_nearest() {
    assert_eq!(per_second_rounded(3000, 3 * NANOS_PER_SEC), 1000);
    assert_eq!(per_second_rounded(1, 2 * NANOS_PER_SEC), 1);
    assert_eq!(per_second_rounded(1, 3 * NANOS_PER_SEC), 0);
    assert_eq!(per_second_rounded(7, 0), 0);
    assert_eq!(per_second_rounded(u64::MAX, 1), u64::MAX);
}

#[test]
fn rate_exceeds_is_exact() {
    let a = Rate { count: 1, span: 3 };
    let b = Rate { count: 333_333_333, span: 1_000_000_000 };
    assert!(a.exceeds(&b));
    assert!(!b.exceeds(&a));
    let c = Rate { count: 2, span: 6 };
    assert!(!a.exceeds(&c));
    assert!(!c.exceeds(&a));
    let empty = Rate { count: 5, span: 0 };
    let zero = Rate { count: 0, span: 7 };
    assert!(!empty.exceeds(&zero));
    assert!(!zero.exceeds(&empty));
    assert!(a.exceeds(&empty));
    let big = Rate { count: u128::MAX, span: u64::MAX };
    let bigger = Rate { count: u128::MAX, span: u64::MAX - 1 };
    assert!(bigger.exceeds(&big));
}

#[test]
fn test_result_derives_rates() {
    let r = TestResult::new(4096, 3000, 3 * NANOS_PER_SEC, 1000, 1000, Vec::new());
    assert_eq!(r.avg_reads, Rate { count: 3000, span: 3 * NANOS_PER_SEC });
    assert_eq!(r.throughput, Rate { count: 3000 * 4096, span: 3 * NANOS_PER_SEC });
    let expected = per_sec(&r.avg_reads) * 4096.0 / (1024.0 * 1024.0);
    assert!((mib_per_sec(&r.throughput) - expected).abs() <= 1e-6 * expected);
}

#[test]
fn test_result_average_is_exact() {
    let r = TestResult::new(4096, 1, 3 * NANOS_PER_SEC, 1, 1, Vec::new());
    let avg = per_sec(&r.avg_reads);
    let exact = 1.0 / 3.0;
    assert!((avg - exact).abs() <= 1e-6 * exact);
    let throughput = mib_per_sec(&r.throughput);
    let expected = avg * 4096.0 / (1024.0 * 1024.0);
    assert!((throughput - expected).abs() <= 1e-6 * expected);
}

#[test]
fn test_result_with_zero_duration_keeps_totals() {
    let r = TestResult::new(4096, 10, 0, 0, 0, Vec::new());
    assert_eq!(r.avg_reads, Rate { count: 10, span: 0 });
    assert_eq!(r.throughput, Rate { count: 40960, span: 0 });
}

#[test]
fn latency_range_of_buckets() {
    let r = TestResult::new(
        4096,
        30,
        3 * NANOS_PER_SEC,
        12,
        8,
        vec![bucket(10, 900, 1500, 1000), bucket(12, 700, 1300, 1100), bucket(8, 800, 2100, 1300)],
    );
    assert_eq!(r.get_latency_range(), (700, 2100));
    assert_eq!(r.get_latency_stats(), (700, 1133, 2100));
}

#[test]
fn latency_range_without_buckets() {
    let r = TestResult::new(4096, 0, NANOS_PER_SEC, 0, 0, Vec::new());
    assert_eq!(r.get_latency_range(), (u64::MAX, 0));
    assert_eq!(r.get_latency_stats(), (u64::MAX, 0, 0));
}

#[test]
fn latency_range_is_componentwise_over_slow_buckets() {
    let r = TestResult::new(
        4096,
        2,
        2 * NANOS_PER_SEC,
        1,
        1,
        vec![
            bucket(1, 3 * NANOS_PER_SEC, 3 * NANOS_PER_SEC, 3 * NANOS_PER_SEC),
            bucket(1, 2 * NANOS_PER_SEC, 4 * NANOS_PER_SEC, 3 * NANOS_PER_SEC),
        ],
    );
    assert_eq!(r.get_latency_range(), (2 * NANOS_PER_SEC, 4 * NANOS_PER_SEC));
}

#[test]
fn derived_latency_figures_repeat() {
    let r = TestResult::new(
        8192,
        20,
        2 * NANOS_PER_SEC,
        11,
        9,
        vec![bucket(11, 100, 400, 250), bucket(9, 50, 900, 300)],
    );
    let first = r.get_latency_stats();
    let second = r.get_latency_stats();
    assert_eq!(first, second);
    assert_eq!(r.get_latency_range(), r.get_latency_range());
    assert_eq!(first, (50, 275, 900));
}

#[test]
fn global_latency_bounds_every_bucket() {
    let mut agg = StatAggregator::new(4096);
    let mut now = 0;
    for k in 0..2500u64 {
        let latency = 200_000 + (k * 7919) % 900_000;
        now += latency;
        agg.record(latency, now);
    }
    let r = agg.finish(now);
    let (min, _, max) = r.get_latency_stats();
    assert!(r.read_statistics.len() >= 2);
    for b in &r.read_statistics {
        assert!(min <= b.min_latency);
        assert!(max >= b.max_latency);
    }
}

#[test]
fn constant_one_ms_reads_for_three_seconds() {
    let mut agg = StatAggregator::new(4096);
    let reports = feed_constant(&mut agg, MS, 3000);
    assert_eq!(reports.len(), 30);
    let r = agg.finish(3 * NANOS_PER_SEC);
    assert_eq!(r.read_statistics.len(), 3);
    for b in &r.read_statistics {
        assert_eq!(b.reads, 1000);
        assert_eq!(b.min_latency, MS);
        assert_eq!(b.max_latency, MS);
        assert_eq!(b.avg_latency, MS);
    }
    assert_eq!(r.total_reads, 3000);
    assert_eq!(r.avg_reads, Rate { count: 3000, span: 3 * NANOS_PER_SEC });
    assert!((per_sec(&r.avg_reads) - 1000.0).abs() < 1e-9);
    assert_eq!(r.min_reads, 1000);
    assert_eq!(r.max_reads, 1000);
    let mib = mib_per_sec(&r.throughput);
    assert!((mib - 3.90625).abs() < 1e-9);
}

#[test]
fn progress_report_every_interval() {
    let mut agg = StatAggregator::new(4096);
    let reports = feed_constant(&mut agg, MS, 100);
    assert_eq!(reports.len(), 1);
    let p = reports[0];
    assert_eq!(p.elapsed, 100 * MS);
    assert_eq!(p.span, 100 * MS);
    assert_eq!(p.reads, 100);
    assert_eq!(p.reads_per_sec, 1000);
    assert_eq!(p.read_size, 4096);
    assert_eq!(p.throughput, Rate { count: 100 * 4096, span: 100 * MS });
    assert_eq!((p.min_latency, p.max_latency, p.avg_latency), (MS, MS, MS));
}

#[test]
fn no_report_before_interval_ends() {
    let mut agg = StatAggregator::new(512);
    assert_eq!(agg.record(MS, 99 * MS), None);
    assert!(agg.record(MS, 100 * MS).is_some());
    assert_eq!(agg.record(MS, 150 * MS), None);
}

#[test]
fn zero_latency_counts_as_read_only() {
    let mut agg = StatAggregator::new(4096);
    agg.record(0, 10);
    agg.record(500, 20);
    agg.record(0, 30);
    agg.record(1500, 40);
    let r = agg.finish(NANOS_PER_SEC);
    assert_eq!(r.read_statistics, vec![bucket(4, 500, 1500, 1000)]);
}

#[test]
fn bucket_without_timed_reads() {
    let mut agg = StatAggregator::new(4096);
    agg.record(0, 10);
    let r = agg.finish(NANOS_PER_SEC);
    assert_eq!(r.read_statistics, vec![bucket(1, u64::MAX, 0, 0)]);
}

#[test]
fn short_run_min_reads_is_its_single_bucket() {
    let mut agg = StatAggregator::new(4096);
    feed_constant(&mut agg, 10 * MS, 50);
    let r = agg.finish(NANOS_PER_SEC);
    assert_eq!(r.read_statistics.len(), 1);
    assert_eq!(r.read_statistics[0].reads, 50);
    assert_eq!(r.min_reads, 50);
    assert_eq!(r.max_reads, 50);
}

#[test]
fn bucket_reads_sum_to_total_with_partial_last_bucket() {
    let mut agg = StatAggregator::new(16384);
    feed_constant(&mut agg, 3 * MS, 1234);
    let done = agg.readings().len();
    assert_eq!(done, 3);
    let r = agg.finish(3 * NANOS_PER_SEC);
    assert_eq!(r.read_statistics.len(), 4);
    let sum: u64 = r.read_statistics.iter().map(|b| b.reads).sum();
    assert_eq!(sum, r.total_reads);
    assert_eq!(r.total_reads, 1234);
    assert_eq!(r.max_reads, 334);
    assert_eq!(r.min_reads, r.read_statistics[3].reads);
}

#[test]
fn empty_phase_has_no_buckets() {
    let agg = StatAggregator::new(4096);
    assert_eq!(agg.total_reads(), 0);
    let r = agg.finish(NANOS_PER_SEC);
    assert!(r.read_statistics.is_empty());
    assert_eq!((r.total_reads, r.min_reads, r.max_reads), (0, 0, 0));
    assert_eq!(r.avg_reads, Rate { count: 0, span: NANOS_PER_SEC });
}

#[test]
fn main_phase_failure_is_fatal() {
    let mut agg = StatAggregator::new(8192);
    feed_constant(&mut agg, MS, 100);
    assert_eq!(agg.total_reads(), 100);
    assert!(agg.readings().is_empty());
    let r = agg.conclude(true, 5 * NANOS_PER_SEC);
    assert_eq!(r.unwrap_err(), SpeedTestError::ReadFailure { size: 8192, attempts: 1 });
}

#[test]
fn main_phase_without_failure_gives_result() {
    let mut agg = StatAggregator::new(8192);
    feed_constant(&mut agg, MS, 100);
    let r = agg.conclude(false, 5 * NANOS_PER_SEC).unwrap();
    assert_eq!(r.total_reads, 100);
    assert_eq!(r.read_size, 8192);
}

#[test]
fn producer_reads_for_duration_plus_margin() {
    assert!(producer_should_continue(0, 5 * NANOS_PER_SEC));
    assert!(producer_should_continue(5 * NANOS_PER_SEC + 99 * MS, 5 * NANOS_PER_SEC));
    assert!(!producer_should_continue(5 * NANOS_PER_SEC + 100 * MS, 5 * NANOS_PER_SEC));
    assert!(producer_should_continue(u64::MAX - 1, u64::MAX));
}

#[test]
fn probe_aborts_after_three_failures() {
    let mut probe = Probe::new(8192);
    assert_eq!(probe.on_read(false), ProbeStep::Backoff);
    assert_eq!(probe.on_read(false), ProbeStep::Backoff);
    assert!(!probe.is_aborted());
    assert_eq!(probe.on_read(false), ProbeStep::Abort);
    assert!(probe.is_aborted());
    assert_eq!(probe.consecutive_errors, MAX_CONSECUTIVE_ERRORS);
    assert_eq!(BACKOFF_NS, 10 * MS);
    assert_eq!(
        probe.finish(2 * NANOS_PER_SEC),
        Err(SpeedTestError::ReadFailure { size: 8192, attempts: 3 })
    );
}

#[test]
fn probe_success_clears_failures() {
    let mut probe = Probe::new(4096);
    assert_eq!(probe.on_read(false), ProbeStep::Backoff);
    assert_eq!(probe.on_read(false), ProbeStep::Backoff);
    assert_eq!(probe.on_read(true), ProbeStep::Continue);
    assert_eq!(probe.consecutive_errors, 0);
    assert_eq!(probe.on_read(false), ProbeStep::Backoff);
    assert_eq!(probe.reads, 1);
    assert!(!probe.is_done(NANOS_PER_SEC));
    assert!(probe.is_done(2 * NANOS_PER_SEC));
    assert_eq!(
        probe.finish(2 * NANOS_PER_SEC),
        Ok(ProbeReport { size: 4096, reads: 1, elapsed: 2 * NANOS_PER_SEC })
    );
}

#[test]
fn probe_rates_agree() {
    let p = ProbeReport { size: 16384, reads: 5000, elapsed: 2 * NANOS_PER_SEC };
    let t = p.throughput();
    let n = p.reads_rate();
    assert_eq!(t, Rate { count: 5000 * 16384, span: 2 * NANOS_PER_SEC });
    assert_eq!(n, Rate { count: 5000, span: 2 * NANOS_PER_SEC });
    let reads_per_sec = n.count as f64 * 1e9 / n.span as f64;
    let expected = reads_per_sec * 16384.0 / (1024.0 * 1024.0);
    assert!(mib_per_sec(&t) >= 0.0);
    assert!((mib_per_sec(&t) - expected).abs() <= 1e-9 * expected);
}

#[test]
fn calibration_skips_failed_probe() {
    let outcomes = vec![
        Ok(ProbeReport { size: 4096, reads: 40_000, elapsed: 2 * NANOS_PER_SEC }),
        Err(SpeedTestError::ReadFailure { size: 8192, attempts: 3 }),
        Ok(ProbeReport { size: 16384, reads: 20_000, elapsed: 2 * NANOS_PER_SEC }),
        Ok(ProbeReport { size: 32768, reads: 9_000, elapsed: 2 * NANOS_PER_SEC }),
    ];
    assert_eq!(determine_best_sizes(&outcomes), Ok((16384, 4096)));
}

#[test]
fn calibration_fails_when_every_probe_fails() {
    let outcomes: Vec<Result<ProbeReport, SpeedTestError>> = vec![
        Err(SpeedTestError::ReadFailure { size: 4096, attempts: 3 }),
        Err(SpeedTestError::ReadFailure { size: 8192, attempts: 3 }),
        Err(SpeedTestError::ReadFailure { size: 16384, attempts: 3 }),
        Err(SpeedTestError::ReadFailure { size: 32768, attempts: 3 }),
    ];
    assert_eq!(determine_best_sizes(&outcomes), Err(SpeedTestError::NoWorkingSize));
    assert_eq!(determine_best_sizes(&[]), Err(SpeedTestError::NoWorkingSize));
}

#[test]
fn calibration_succeeds_with_a_completed_probe_that_read_nothing() {
    let outcomes = vec![
        Err(SpeedTestError::ReadFailure { size: 4096, attempts: 3 }),
        Ok(ProbeReport { size: 8192, reads: 0, elapsed: 2 * NANOS_PER_SEC }),
        Err(SpeedTestError::ReadFailure { size: 16384, attempts: 3 }),
    ];
    assert_eq!(determine_best_sizes(&outcomes), Ok((8192, 8192)));
    let with_zero_time = vec![
        Ok(ProbeReport { size: 4096, reads: 0, elapsed: 0 }),
        Ok(ProbeReport { size: 8192, reads: 10, elapsed: 2 * NANOS_PER_SEC }),
    ];
    assert_eq!(determine_best_sizes(&with_zero_time), Ok((8192, 8192)));
}

#[test]
fn calibration_keeps_first_of_equal_rates() {
    let outcomes = vec![
        Ok(ProbeReport { size: 4096, reads: 1000, elapsed: 2 * NANOS_PER_SEC }),
        Ok(ProbeReport { size: 8192, reads: 500, elapsed: 2 * NANOS_PER_SEC }),
        Ok(ProbeReport { size: 16384, reads: 1000, elapsed: 4 * NANOS_PER_SEC }),
    ];
    assert_eq!(determine_best_sizes(&outcomes), Ok((16384, 4096)));
    let tie = vec![
        Ok(ProbeReport { size: 4096, reads: 200, elapsed: 2 * NANOS_PER_SEC }),
        Ok(ProbeReport { size: 8192, reads: 100, elapsed: 2 * NANOS_PER_SEC }),
    ];
    assert_eq!(determine_best_sizes(&tie), Ok((4096, 4096)));
}

#[test]
fn candidate_and_selected_sizes() {
    assert_eq!(candidate_sizes(), vec![4096, 8192, 16384, 32768]);
    assert_eq!(sizes_to_test(16384, 4096), vec![16384, 4096]);
    assert_eq!(sizes_to_test(8192, 8192), vec![8192]);
}

#[test]
fn best_labels() {
    assert_eq!(BestFor::classify(4096, 4096, 4096).label(), "Both");
    assert_eq!(BestFor::classify(4096, 4096, 8192).label(), "Throughput");
    assert_eq!(BestFor::classify(8192, 4096, 8192).label(), "Reads");
    assert_eq!(BestFor::classify(512, 4096, 8192), BestFor::Neither);
    assert_eq!(BestFor::Neither.label(), "");
}

#[test]
fn size_labels() {
    assert_eq!(get_size_label(4096), "4 KB");
    assert_eq!(get_size_label(1536), "1 KB");
    assert_eq!(get_size_label(131072), "128 KB");
    assert_eq!(get_size_label(512), "512 B");
    assert_eq!(get_size_label(0), "0 B");
    assert_eq!(decimal_string(18_446_744_073_709_551_615), "18446744073709551615");
    assert_eq!(decimal_string(1000), "1000");
}

#[test]
fn console_toggles_and_logs() {
    let mut console = ConsoleWindow::new();
    assert!(!console.is_visible());
    console.toggle();
    assert!(console.is_visible());
    console.toggle();
    assert!(!console.is_visible());
    console.log("first".to_string());
    log_to_console(&mut console, "second");
    let logs: Vec<String> = console.logs().iter().cloned().collect();
    assert_eq!(logs, vec!["first".to_string(), "second".to_string()]);
    let default_console = ConsoleWindow::default();
    assert!(default_console.logs().is_empty());
}

#[test]
fn console_drops_oldest_when_full() {
    let mut console = ConsoleWindow::new();
    for i in 0..MAX_LOG_ENTRIES {
        console.log(i.to_string());
    }
    assert_eq!(console.logs().len(), MAX_LOG_ENTRIES);
    console.log("newest".to_string());
    assert_eq!(console.logs().len(), MAX_LOG_ENTRIES);
    assert_eq!(console.logs().front().unwrap(), "1");
    assert_eq!(console.logs().back().unwrap(), "newest");
}

#[test]
fn enabled_sizes_in_order() {
    let sizes = [(512, false), (4096, true), (1024, true), (65536, false), (8192, true)];
    assert_eq!(collect_enabled_sizes(&sizes), vec![4096, 1024, 8192]);
    assert!(collect_enabled_sizes(&[]).is_empty());
}

#[test]
fn test_start_and_error_messages() {
    let mut console = ConsoleWindow::new();
    log_test_start(&mut console, 16384);
    log_test_start(&mut console, 512);
    let message = handle_test_error(&mut console, "read failed");
    assert_eq!(message, "Test error: read failed");
    let logs: Vec<String> = console.logs().iter().cloned().collect();
    assert_eq!(
        logs,
        vec![
            "Testing with read size: 16 KB".to_string(),
            "Testing with read size: 512 B".to_string(),
            "Test error: read failed".to_string(),
        ]
    );
}

#[test]
fn connector_names_and_default() {
    assert_eq!(Connector::Pcileech.name(), "pcileech");
    assert_eq!(Connector::Native.name(), "native");
    assert_eq!(Connector::Qemu.to_string(), "qemu");
    assert_eq!(Connector::Kvm.to_string(), "kvm");
    assert_eq!(Connector::default(), Connector::Pcileech);
}

#[test]
fn cli_defaults_and_duration() {
    let cli = Cli::default();
    assert_eq!(cli.connector, Connector::Pcileech);
    assert_eq!(cli.pcileech_device, "FPGA");
    assert_eq!(cli.duration, 5);
    assert_eq!(cli.duration_ns(), 5 * NANOS_PER_SEC);
    let long = Cli { duration: u64::MAX, ..Cli::default() };
    assert_eq!(long.duration_ns(), u64::MAX);
}
