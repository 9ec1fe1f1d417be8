//! Distributions and connection statistics.

use nexusnet::analytics::{
    ConnectionStats, DistributionSummary, Histogram, Percent, RateMeter, BUCKET_COUNT,
};
use nexusnet::rate::Rate;
use nexusnet::ratio::Ratio;
use nexusnet::time::{Duration, Instant};

/// The bytes per second of a rate.
fn bytes_per_second(rate: Rate) -> f64 {
    rate.units() as f64 / 4_294_967_296.0
}

#[test]
fn an_empty_histogram_reports_nothing() {
    let histogram = Histogram::new();

    assert!(histogram.is_empty());
    assert_eq!(histogram.count(), 0);
    assert!(histogram.mean().is_none());
    assert!(histogram.percentile(Percent::whole(50)).is_none());
    assert!(histogram.min().is_none());
}

#[test]
fn measurements_are_counted() {
    let mut histogram = Histogram::new();
    for _ in 0..10 {
        histogram.record(Duration::from_millis(5));
    }

    assert_eq!(histogram.count(), 10);
    assert!(!histogram.is_empty());
}

#[test]
fn extremes_are_tracked_exactly() {
    let mut histogram = Histogram::new();
    histogram.record(Duration::from_millis(3));
    histogram.record(Duration::from_millis(900));
    histogram.record(Duration::from_millis(50));

    // Min and max are stored directly, so they are exact rather than
    // bucketed.
    assert_eq!(histogram.min(), Some(Duration::from_millis(3)));
    assert_eq!(histogram.max(), Some(Duration::from_millis(900)));
}

#[test]
fn the_mean_is_computed() {
    let mut histogram = Histogram::new();
    for millis in [10, 20, 30] {
        histogram.record(Duration::from_millis(millis));
    }

    let mean = histogram.mean().expect("samples exist");
    assert!(
        (mean.as_millis() as i64 - 20).abs() <= 1,
        "expected ~20ms, got {mean:?}"
    );
}

#[test]
fn percentiles_are_ordered() {
    let mut histogram = Histogram::new();
    for millis in 1..=100 {
        histogram.record(Duration::from_millis(millis));
    }

    let p50 = histogram.percentile(Percent::whole(50)).expect("samples exist");
    let p90 = histogram.percentile(Percent::whole(90)).expect("samples exist");
    let p99 = histogram.percentile(Percent::whole(99)).expect("samples exist");

    assert!(p50 <= p90, "p50 {p50:?} exceeded p90 {p90:?}");
    assert!(p90 <= p99, "p90 {p90:?} exceeded p99 {p99:?}");
}

#[test]
fn percentiles_land_near_the_true_value() {
    let mut histogram = Histogram::new();
    for millis in 1..=1000 {
        histogram.record(Duration::from_millis(millis));
    }

    let p50 = histogram.percentile(Percent::whole(50)).expect("samples exist");
    // Buckets are ~26% wide, so allow generous but meaningful tolerance.
    assert!(
        p50 >= Duration::from_millis(450) && p50 <= Duration::from_millis(700),
        "median of 1..=1000ms should be near 500ms, got {p50:?}"
    );
}

#[test]
fn the_tail_is_visible_where_an_average_would_hide_it() {
    let mut histogram = Histogram::new();

    // 95 fast requests and 5 very slow ones.
    for _ in 0..95 {
        histogram.record(Duration::from_millis(5));
    }
    for _ in 0..5 {
        histogram.record(Duration::from_millis(700));
    }

    let median = histogram.median().expect("samples exist");
    let p99 = histogram.percentile(Percent::whole(99)).expect("samples exist");

    assert!(
        median < Duration::from_millis(20),
        "most requests were fast, got {median:?}"
    );
    assert!(
        p99 >= Duration::from_millis(400),
        "the slow minority must be visible, got {p99:?}"
    );
    assert!(histogram.summary().has_heavy_tail());
}

#[test]
fn a_uniform_distribution_has_no_heavy_tail() {
    let mut histogram = Histogram::new();
    for _ in 0..100 {
        histogram.record(Duration::from_millis(50));
    }

    assert!(!histogram.summary().has_heavy_tail());
}

#[test]
fn percentile_arguments_are_clamped() {
    let mut histogram = Histogram::new();
    histogram.record(Duration::from_millis(10));

    assert!(histogram.percentile(Percent::whole(-50)).is_some());
    assert!(histogram.percentile(Percent::whole(500)).is_some());
}


#[test]
fn zero_is_a_valid_measurement() {
    let mut histogram = Histogram::new();
    histogram.record(Duration::zero());

    assert_eq!(histogram.count(), 1);
    assert_eq!(histogram.min(), Some(Duration::zero()));
}

#[test]
fn a_very_large_measurement_lands_in_the_last_bucket() {
    let mut histogram = Histogram::new();
    histogram.record(Duration::from_secs(3600));

    assert_eq!(histogram.count(), 1);
    assert_eq!(histogram.max(), Some(Duration::from_secs(3600)));
    assert!(histogram.percentile(Percent::whole(100)).is_some());
}

#[test]
fn histograms_merge() {
    let mut first = Histogram::new();
    for _ in 0..50 {
        first.record(Duration::from_millis(10));
    }

    let mut second = Histogram::new();
    for _ in 0..50 {
        second.record(Duration::from_millis(200));
    }

    first.merge(&second);

    assert_eq!(first.count(), 100);
    assert_eq!(first.min(), Some(Duration::from_millis(10)));
    assert_eq!(first.max(), Some(Duration::from_millis(200)));
}

#[test]
fn merging_an_empty_histogram_changes_nothing() {
    let mut histogram = Histogram::new();
    histogram.record(Duration::from_millis(10));
    let before = histogram.summary();

    histogram.merge(&Histogram::new());
    assert_eq!(histogram.summary(), before);
}

#[test]
fn clearing_empties_the_histogram() {
    let mut histogram = Histogram::new();
    for _ in 0..10 {
        histogram.record(Duration::from_millis(10));
    }

    histogram.clear();
    assert!(histogram.is_empty());
    assert!(histogram.max().is_none());
}

#[test]
fn memory_use_is_bounded_regardless_of_sample_count() {
    let mut histogram = Histogram::new();
    for i in 0..100_000_u64 {
        histogram.record(Duration::from_micros(i % 10_000));
    }

    // The whole point of bucketing: a hundred thousand samples occupy the
    // same fixed array as one.
    assert_eq!(histogram.count(), 100_000);
    assert_eq!(histogram.buckets().len(), BUCKET_COUNT);
}

fn start() -> Instant {
    Instant::at(Duration::from_secs(100))
}







#[test]
fn connection_traffic_is_counted_in_both_directions() {
    let now = start();
    let mut stats = ConnectionStats::new_at(now);

    stats.record_sent_at(1000, now + Duration::from_millis(100));
    stats.record_sent_at(500, now + Duration::from_millis(200));
    stats.record_received_at(2000, now + Duration::from_millis(300));

    let snapshot = stats.snapshot(now + Duration::from_secs(1));
    assert_eq!(snapshot.bytes_sent, 1500);
    assert_eq!(snapshot.bytes_received, 2000);
    assert_eq!(snapshot.frames_sent, 2);
    assert_eq!(snapshot.frames_received, 1);
    assert_eq!(snapshot.total_bytes(), 3500);
}

#[test]
fn jitter_is_derived_from_consecutive_measurements() {
    let now = start();
    let mut stats = ConnectionStats::new_at(now);

    stats.record_rtt(Duration::from_millis(50));
    // Jitter needs a pair, so nothing yet.
    assert!(stats.jitter().is_empty());

    stats.record_rtt(Duration::from_millis(70));
    assert_eq!(stats.jitter().count(), 1);

    let summary = stats.snapshot(now).jitter;
    assert!(summary.max.expect("a sample exists") >= Duration::from_millis(15));
}

#[test]
fn a_steady_link_shows_little_jitter() {
    let now = start();
    let mut stats = ConnectionStats::new_at(now);

    for _ in 0..20 {
        stats.record_rtt(Duration::from_millis(50));
    }

    let summary = stats.snapshot(now).jitter;
    assert!(
        summary.max.expect("samples exist") < Duration::from_millis(5),
        "identical measurements should show essentially no jitter"
    );
}

#[test]
fn an_erratic_link_shows_jitter() {
    let now = start();
    let mut stats = ConnectionStats::new_at(now);

    for index in 0..20 {
        let millis = if index % 2 == 0 { 20 } else { 180 };
        stats.record_rtt(Duration::from_millis(millis));
    }

    let summary = stats.snapshot(now).jitter;
    assert!(
        summary.p50.expect("samples exist") >= Duration::from_millis(100),
        "alternating latency should register as large jitter"
    );
}

#[test]
fn errors_and_losses_are_tracked() {
    let now = start();
    let mut stats = ConnectionStats::new_at(now);

    for _ in 0..90 {
        stats.record_sent_at(100, now);
    }
    stats.record_lost(10);
    stats.record_error();

    let snapshot = stats.snapshot(now);
    assert!(snapshot.has_errors());
    assert_eq!(snapshot.packets_lost, 10);
    assert_eq!(snapshot.loss_ratio(), Ratio::new(10, 100));
}

#[test]
fn a_clean_connection_reports_no_loss() {
    let now = start();
    let mut stats = ConnectionStats::new_at(now);
    stats.record_sent_at(100, now);

    let snapshot = stats.snapshot(now);
    assert_eq!(snapshot.loss_ratio(), Ratio::new(0, 1));
    assert!(!snapshot.has_errors());
}

#[test]
fn mean_frame_size_reveals_fragmentation() {
    let now = start();
    let mut stats = ConnectionStats::new_at(now);

    for _ in 0..10 {
        stats.record_sent_at(64, now);
    }

    let snapshot = stats.snapshot(now);
    assert_eq!(snapshot.mean_frame_size(), Ratio::new(640, 10));
}

#[test]
fn an_idle_connection_divides_safely() {
    let now = start();
    let stats = ConnectionStats::new_at(now);
    let snapshot = stats.snapshot(now);

    assert_eq!(snapshot.mean_frame_size(), Ratio::new(0, 1));
    assert_eq!(snapshot.loss_ratio(), Ratio::new(0, 1));
    assert_eq!(snapshot.uptime, Duration::zero());
}

#[test]
fn uptime_is_reported() {
    let now = start();
    let stats = ConnectionStats::new_at(now);

    let snapshot = stats.snapshot(now + Duration::from_secs(42));
    assert_eq!(snapshot.uptime, Duration::from_secs(42));
}


#[test]
fn percentiles_are_the_upper_bounds_of_buckets() {
    let mut histogram = Histogram::new();
    histogram.record(Duration::from_nanos(999));
    assert_eq!(histogram.median(), Some(Duration::from_nanos(1260)), "the first bucket");
    histogram.clear();
    histogram.record(Duration::from_nanos(1260));
    assert_eq!(histogram.median(), Some(Duration::from_nanos(1588)), "the second");
    histogram.clear();
    histogram.record(Duration::from_millis(2_200));
    assert_eq!(histogram.median(), Some(Duration::from_nanos(2_652_863_397)), "the last");
}

#[test]
fn the_last_bucket_is_no_underestimate() {
    let mut histogram = Histogram::new();
    histogram.record(Duration::from_millis(2_200));
    histogram.record(Duration::from_secs(3600));
    histogram.record(Duration::from_millis(1));
    assert_eq!(histogram.percentile(Percent::whole(100)), Some(Duration::from_secs(3600)));
    assert_eq!(histogram.percentile(Percent::whole(100)), histogram.max());
    assert_eq!(histogram.summary().p99, histogram.max());
    let low = histogram.percentile(Percent::whole(10)).expect("samples exist");
    assert!(low < Duration::from_millis(2), "lower buckets report their own bound");
}

#[test]
fn fractions_of_a_percent_have_their_own_rank() {
    let mut histogram = Histogram::new();
    for _ in 0..999 {
        histogram.record(Duration::from_millis(1));
    }
    histogram.record(Duration::from_secs(1));
    let slow = histogram.percentile(Percent::new(999, 10)).expect("samples exist");
    assert!(slow < Duration::from_millis(2), "the 999th of a thousand is fast");
    let slowest = histogram.percentile(Percent::new(9991, 100)).expect("samples exist");
    assert!(slowest >= Duration::from_secs(1));
}

#[test]
fn the_mean_is_rounded_to_the_nearest_nanosecond() {
    let mut histogram = Histogram::new();
    histogram.record(Duration::from_nanos(1));
    histogram.record(Duration::from_nanos(2));
    assert_eq!(histogram.mean(), Some(Duration::from_nanos(2)));
    histogram.record(Duration::from_nanos(1));
    assert_eq!(histogram.mean(), Some(Duration::from_nanos(1)));
}

#[test]
fn merging_counts_every_measurement() {
    let mut both = Histogram::new();
    let mut first = Histogram::new();
    let mut second = Histogram::default();
    for millis in [3, 50, 900] {
        first.record(Duration::from_millis(millis));
        both.record(Duration::from_millis(millis));
    }
    for millis in [1, 60] {
        second.record(Duration::from_millis(millis));
        both.record(Duration::from_millis(millis));
    }
    first.merge(&second);
    assert_eq!(first.summary(), both.summary());
    assert_eq!(first.buckets(), both.buckets());
    assert_eq!(first.clone().summary(), both.summary());
}

#[test]
fn a_tail_is_heavy_from_four_times_the_median() {
    let mut summary = DistributionSummary::default();
    assert!(!summary.has_heavy_tail(), "nothing measured");
    summary.p50 = Some(Duration::from_nanos(10));
    summary.p99 = Some(Duration::from_nanos(39));
    assert!(!summary.has_heavy_tail());
    summary.p99 = Some(Duration::from_nanos(40));
    assert!(summary.has_heavy_tail());
    summary.p50 = Some(Duration::zero());
    assert!(!summary.has_heavy_tail());
}

#[test]
fn an_unsampled_meter_reports_no_rate() {
    let meter = RateMeter::new_at(start());

    assert!(meter.bytes_per_second().is_none());
    assert_eq!(meter.total_bytes(), 0);
}

#[test]
fn throughput_is_measured() {
    let now = start();
    let mut meter = RateMeter::new_at(now);

    // 1000 bytes per second, sustained.
    for step in 1..=20_u64 {
        meter.record_at(1000, now + Duration::from_secs(step));
    }

    let rate = bytes_per_second(meter.bytes_per_second().expect("samples exist"));
    assert!(
        (rate - 1000.0).abs() < 50.0,
        "expected ~1000 B/s, got {rate}"
    );
    assert_eq!(meter.total_bytes(), 20_000);
}

#[test]
fn the_peak_rate_is_remembered() {
    let now = start();
    let mut meter = RateMeter::new_at(now);

    meter.record_at(1000, now + Duration::from_secs(1));
    // A brief 10x burst.
    meter.record_at(10_000, now + Duration::from_secs(2));
    meter.record_at(1000, now + Duration::from_secs(3));

    assert!(
        (bytes_per_second(meter.peak_bytes_per_second()) - 10_000.0).abs() < 1.0,
        "the burst should be recorded as the peak"
    );
    assert!(
        bytes_per_second(meter.bytes_per_second().expect("samples exist")) < 5000.0,
        "but smoothing should keep the current rate lower"
    );
}

#[test]
fn a_zero_interval_does_not_imply_infinite_throughput() {
    let now = start();
    let mut meter = RateMeter::new_at(now);

    meter.record_at(1000, now);
    assert!(
        meter.bytes_per_second().is_none(),
        "no time has passed, so no rate can be computed"
    );
    assert_eq!(meter.total_bytes(), 1000, "but the bytes still count");
}

#[test]
fn the_lifetime_average_differs_from_the_smoothed_rate() {
    let now = start();
    let mut meter = RateMeter::new_at(now);

    // Idle for most of the window, then a burst at the end.
    meter.record_at(1000, now + Duration::from_secs(10));

    let average = bytes_per_second(meter.average_bytes_per_second(now + Duration::from_secs(10)));
    assert!(
        (average - 100.0).abs() < 1.0,
        "1000 bytes over 10 seconds is 100 B/s, got {average}"
    );
}

#[test]
fn resetting_restarts_the_meter() {
    let now = start();
    let mut meter = RateMeter::new_at(now);
    meter.record_at(5000, now + Duration::from_secs(1));

    meter.reset(now + Duration::from_secs(2));
    assert_eq!(meter.total_bytes(), 0);
    assert!(meter.bytes_per_second().is_none());
}

#[test]
fn degenerate_measurements_are_ignored() {
    let mut histogram = Histogram::new();
    histogram.record_micros(-5);

    assert!(
        histogram.is_empty(),
        "invalid measurements must not enter the distribution"
    );
}

#[test]
fn measurements_can_be_given_in_microseconds() {
    let mut histogram = Histogram::new();
    histogram.record_micros(1500);
    assert_eq!(histogram.min(), Some(Duration::from_micros(1500)));
    assert_eq!(histogram.count(), 1);
}

#[test]
fn throughput_is_smoothed_by_a_fifth() {
    let now = start();
    let mut meter = RateMeter::new_at(now);
    meter.record_at(1000, now + Duration::from_secs(1));
    meter.record_at(0, now + Duration::from_secs(2));
    meter.record_at(2000, now + Duration::from_secs(3));
    let rate = meter.bytes_per_second().expect("samples exist");
    assert_eq!(rate.units(), 1200 << 32);
    assert_eq!(meter.samples(), 3);
    assert_eq!(meter.uptime(now + Duration::from_secs(6)), Duration::from_secs(6));
    let average = meter.average_bytes_per_second(now + Duration::from_secs(6));
    assert_eq!(average.whole_bytes(), 500);
    assert_eq!(meter.average_bytes_per_second(now).units(), 0, "no time has passed");

    let mut latest = RateMeter::new_at(now).with_smoothing(Ratio::new(1, 1));
    latest.record_at(1000, now + Duration::from_secs(1));
    latest.record_at(2000, now + Duration::from_secs(2));
    assert_eq!(latest.bytes_per_second().map(|r| r.whole_bytes()), Some(2000));
}

#[test]
fn the_clock_can_be_left_to_the_meter() {
    let mut meter = RateMeter::default();
    meter.record(1024);
    meter.record(1024);
    assert_eq!(meter.total_bytes(), 2048);
    assert_eq!(meter.samples(), 2);
}

#[test]
fn the_clock_can_be_left_to_the_statistics() {
    let mut stats = ConnectionStats::new();
    stats.record_sent(1024);
    stats.record_received(512);
    stats.record_rtt(Duration::from_millis(40));
    let snapshot = stats.snapshot(start());
    assert_eq!(snapshot.total_bytes(), 1536);
    assert_eq!(snapshot.frames_sent, 1);
    assert_eq!(stats.send_rate().total_bytes(), 1024);
    assert_eq!(stats.receive_rate().samples(), 1);
    assert_eq!(stats.rtt().count(), 1);
}
