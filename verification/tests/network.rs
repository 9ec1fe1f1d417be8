//! Grading a link and planning for it.

use nexusnet::optimizer::{
    NetworkOptimizer, NetworkQuality, OptimizationMetrics, DEFAULT_PAYLOAD, MAX_PAYLOAD,
    MIN_PAYLOAD,
};
use nexusnet::ratio::Ratio;
use nexusnet::time::Duration;

/// Feeds identical samples describing a link of a given character.
fn train(
    optimizer: &mut NetworkOptimizer,
    bytes_per_second: u64,
    rtt: Duration,
    loss_ratio: f64,
    rounds: usize,
) {
    let lost = (100.0 * loss_ratio) as u64;
    let delivered = 100 - lost;

    for _ in 0..rounds {
        optimizer.record_delivery(bytes_per_second, Duration::from_secs(1));
        optimizer.record_rtt(rtt);
        optimizer.record_loss(delivered, lost);
    }
}

#[test]
fn a_new_optimizer_assumes_a_workable_link() {
    let optimizer = NetworkOptimizer::new();

    assert_eq!(optimizer.quality(), NetworkQuality::Good);
    assert!(!optimizer.is_confident());

    let plan = optimizer.plan();
    assert_eq!(plan.payload_size, DEFAULT_PAYLOAD);
    assert!(!plan.confident, "no samples means no confidence");
}

#[test]
fn a_fast_clean_link_grades_excellent() {
    let mut optimizer = NetworkOptimizer::new();
    train(
        &mut optimizer,
        64 * 1024 * 1024,
        Duration::from_millis(10),
        0.0,
        30,
    );

    assert_eq!(optimizer.quality(), NetworkQuality::Excellent);
    assert!(optimizer.is_confident());
}

#[test]
fn a_slow_lossy_link_grades_badly() {
    let mut optimizer = NetworkOptimizer::new();
    train(
        &mut optimizer,
        24 * 1024,
        Duration::from_millis(700),
        0.15,
        30,
    );

    assert_eq!(optimizer.quality(), NetworkQuality::Critical);
    assert!(optimizer.quality().is_degraded());
}

#[test]
fn heavy_loss_overrides_excellent_bandwidth() {
    let mut optimizer = NetworkOptimizer::new();
    // A fat, fast pipe that drops a fifth of everything.
    train(
        &mut optimizer,
        64 * 1024 * 1024,
        Duration::from_millis(5),
        0.20,
        30,
    );

    assert_eq!(
        optimizer.quality(),
        NetworkQuality::Critical,
        "bandwidth must not disguise a link that loses a fifth of its packets"
    );
}

#[test]
fn an_unmeasured_dimension_does_not_count_against_the_link() {
    let mut optimizer = NetworkOptimizer::new();

    // Bandwidth and latency only; no loss has been observed at all.
    for _ in 0..20 {
        optimizer.record_delivery(64 * 1024 * 1024, Duration::from_secs(1));
        optimizer.record_rtt(Duration::from_millis(5));
    }

    assert_eq!(
        optimizer.quality(),
        NetworkQuality::Excellent,
        "never having measured loss is not evidence of loss"
    );
}

#[test]
fn a_thin_loss_sample_is_ignored() {
    let mut optimizer = NetworkOptimizer::new();

    for _ in 0..20 {
        optimizer.record_delivery(64 * 1024 * 1024, Duration::from_secs(1));
        optimizer.record_rtt(Duration::from_millis(5));
    }

    // One loss out of three packets is a 33% ratio and means nothing.
    optimizer.record_loss(2, 1);

    assert_eq!(
        optimizer.quality(),
        NetworkQuality::Excellent,
        "three packets is not enough to condemn a link"
    );
}

#[test]
fn a_degraded_link_is_told_to_conserve() {
    let mut optimizer = NetworkOptimizer::new();
    train(
        &mut optimizer,
        48 * 1024,
        Duration::from_millis(400),
        0.05,
        30,
    );

    let plan = optimizer.plan();
    assert!(plan.quality.is_degraded());
    assert!(plan.compression.enabled);
    assert!(plan.compression.level >= 80);
    assert!(plan.delta_sync.enabled);
    assert!(plan.conserves_bandwidth());
    assert!(plan.cache.capacity_bytes >= 32 * 1024 * 1024);
}

#[test]
fn a_fast_link_is_told_not_to_bother() {
    let mut optimizer = NetworkOptimizer::new();
    train(
        &mut optimizer,
        64 * 1024 * 1024,
        Duration::from_millis(5),
        0.0,
        30,
    );

    let plan = optimizer.plan();
    assert!(
        !plan.compression.enabled,
        "compressing would cost more time than it saves"
    );
    assert!(!plan.delta_sync.enabled);
    assert!(!plan.conserves_bandwidth());
}

#[test]
fn payload_size_follows_the_bandwidth_delay_product() {
    let mut slow = NetworkOptimizer::new();
    train(&mut slow, 64 * 1024, Duration::from_millis(50), 0.0, 20);

    let mut fast = NetworkOptimizer::new();
    train(
        &mut fast,
        16 * 1024 * 1024,
        Duration::from_millis(50),
        0.0,
        20,
    );

    assert!(
        fast.plan().payload_size > slow.plan().payload_size,
        "a fatter pipe should carry larger payloads"
    );
}

#[test]
fn network_payload_size_stays_within_bounds() {
    let mut huge = NetworkOptimizer::new();
    train(
        &mut huge,
        10 * 1024 * 1024 * 1024,
        Duration::from_secs(2),
        0.0,
        20,
    );
    assert_eq!(huge.plan().payload_size, MAX_PAYLOAD);

    let mut tiny = NetworkOptimizer::new();
    train(&mut tiny, 100, Duration::from_millis(10), 0.0, 20);
    assert_eq!(tiny.plan().payload_size, MIN_PAYLOAD);
}

#[test]
fn network_in_flight_bytes_track_the_bandwidth_delay_product() {
    let mut optimizer = NetworkOptimizer::new();
    train(
        &mut optimizer,
        1024 * 1024,
        Duration::from_millis(200),
        0.0,
        30,
    );

    let expected = (1024.0 * 1024.0 * 0.2) as u64;
    let actual = optimizer.plan().in_flight_bytes;

    assert!(
        actual.abs_diff(expected) < expected / 4,
        "expected about {expected} bytes in flight, got {actual}"
    );
}

#[test]
fn the_retry_timeout_follows_latency() {
    let mut quick = NetworkOptimizer::new();
    train(&mut quick, 1024 * 1024, Duration::from_millis(20), 0.0, 20);

    let mut slow = NetworkOptimizer::new();
    train(&mut slow, 1024 * 1024, Duration::from_millis(800), 0.0, 20);

    assert!(
        slow.plan().retry_timeout > quick.plan().retry_timeout,
        "a slower path must wait longer before retrying"
    );
}

#[test]
fn the_plan_adapts_when_conditions_change() {
    let mut optimizer = NetworkOptimizer::new();

    train(
        &mut optimizer,
        64 * 1024 * 1024,
        Duration::from_millis(5),
        0.0,
        25,
    );
    assert!(!optimizer.plan().compression.enabled);

    // The link degrades badly and stays down.
    train(
        &mut optimizer,
        24 * 1024,
        Duration::from_millis(600),
        0.08,
        80,
    );

    let plan = optimizer.plan();
    assert!(
        plan.compression.enabled,
        "sustained degradation must change the plan"
    );
    assert!(plan.delta_sync.enabled);
}

#[test]
fn metrics_track_samples_and_transitions() {
    let mut optimizer = NetworkOptimizer::new();
    train(
        &mut optimizer,
        64 * 1024 * 1024,
        Duration::from_millis(5),
        0.0,
        10,
    );

    let metrics = optimizer.metrics();
    assert_eq!(metrics.delivery_samples, 10);
    assert_eq!(metrics.rtt_samples, 10);
    assert_eq!(metrics.loss_samples, 10);
    assert_eq!(metrics.total_samples(), 30);
    assert!(
        metrics.quality_changes >= 1,
        "the grade moved off its default"
    );
    assert!(metrics.bytes_per_second.is_some());
    assert!(metrics.smoothed_rtt.is_some());
    assert!(metrics.confident);
    assert!(!metrics.is_degraded());
}

#[test]
fn the_worst_grade_is_remembered() {
    let mut optimizer = NetworkOptimizer::new();

    // Start badly.
    train(
        &mut optimizer,
        16 * 1024,
        Duration::from_millis(800),
        0.2,
        30,
    );
    assert_eq!(optimizer.metrics().worst_quality, NetworkQuality::Critical);

    // Then recover.
    train(
        &mut optimizer,
        64 * 1024 * 1024,
        Duration::from_millis(5),
        0.0,
        200,
    );

    let metrics = optimizer.metrics();
    assert!(
        metrics.quality > NetworkQuality::Critical,
        "the link recovered, got {}",
        metrics.quality.to_string()
    );
    assert_eq!(
        metrics.worst_quality,
        NetworkQuality::Critical,
        "the low-water mark must survive recovery"
    );
    assert!(metrics.has_recovered());
}

#[test]
fn resetting_clears_measurements_and_history() {
    let mut optimizer = NetworkOptimizer::new();
    train(
        &mut optimizer,
        16 * 1024,
        Duration::from_millis(900),
        0.3,
        30,
    );
    assert!(optimizer.is_confident());

    optimizer.reset();

    assert!(!optimizer.is_confident());
    assert_eq!(optimizer.quality(), NetworkQuality::Good);
    assert_eq!(
        optimizer.metrics().worst_quality,
        NetworkQuality::Excellent,
        "a new path says nothing about the old one"
    );
    assert_eq!(optimizer.plan().payload_size, DEFAULT_PAYLOAD);
}

#[test]
fn individual_strategies_match_the_plan() {
    let mut optimizer = NetworkOptimizer::new();
    train(
        &mut optimizer,
        48 * 1024,
        Duration::from_millis(400),
        0.02,
        30,
    );

    let plan = optimizer.plan();
    assert_eq!(optimizer.compression_strategy(), plan.compression);
    assert_eq!(optimizer.cache_strategy(), plan.cache);
    assert_eq!(optimizer.delta_sync_strategy(), plan.delta_sync);
}

#[test]
fn an_empty_measurement_leaves_the_grade() {
    let mut optimizer = NetworkOptimizer::default();
    optimizer.record_delivery(0, Duration::from_secs(1));
    optimizer.record_rtt(Duration::zero());
    optimizer.record_loss(0, 0);
    let metrics = optimizer.metrics();
    assert_eq!(metrics.total_samples(), 3, "recorded all the same");
    assert_eq!(metrics.quality, NetworkQuality::Good);
    assert_eq!(metrics.quality_changes, 0);
    assert_eq!(metrics.bytes_per_second, None);
    assert_eq!(metrics.smoothed_rtt, None);
    assert_eq!(metrics.loss_ratio, None);
    assert!(!metrics.has_recovered());
}

#[test]
fn the_snapshot_is_exact() {
    let mut optimizer = NetworkOptimizer::new();
    optimizer.record_delivery(2048, Duration::from_secs(2));
    optimizer.record_rtt(Duration::from_millis(40));
    optimizer.record_loss(90, 10);
    let metrics = optimizer.metrics();
    assert_eq!(metrics.bytes_per_second.map(|r| r.whole_bytes()), Some(1024));
    assert_eq!(metrics.smoothed_rtt, Some(Duration::from_millis(40)));
    let tenth = Ratio::new(100_000_000_000_000_000, 1_000_000_000_000_000_000);
    assert_eq!(metrics.loss_ratio, Some(tenth));
    assert_eq!(metrics.quality, NetworkQuality::Critical, "1 KiB/s");
    assert!(!metrics.confident);
    assert_eq!(optimizer.loss().lost(), 10);
    assert_eq!(optimizer.bandwidth().samples(), 1);
    assert_eq!(optimizer.rtt().samples(), 1);
    assert_eq!(optimizer.in_flight_bytes(), 1024);
    assert_eq!(optimizer.payload_size(), MIN_PAYLOAD);
}

#[test]
fn a_reset_keeps_what_was_recorded() {
    let mut optimizer = NetworkOptimizer::new();
    optimizer.record_delivery(1024, Duration::from_secs(1));
    optimizer.reset();
    let metrics = optimizer.metrics();
    assert_eq!(metrics.delivery_samples, 1);
    assert_eq!(metrics.quality_changes, 1);
    assert_eq!(metrics.bytes_per_second, None);
}

#[test]
fn empty_metrics_are_those_of_a_workable_link() {
    let metrics = OptimizationMetrics::default();
    assert_eq!(metrics.total_samples(), 0);
    assert_eq!(metrics.quality, NetworkQuality::Good);
    assert_eq!(metrics.worst_quality, NetworkQuality::Good);
    assert!(!metrics.is_degraded());
    assert!(!metrics.has_recovered());
}
