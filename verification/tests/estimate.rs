//! Bandwidth and round-trip time estimates.

use nexusnet::optimizer::{
    max_retransmit_timeout, min_retransmit_timeout, BandwidthEstimator, RttEstimator,
};
use nexusnet::rate::Rate;
use nexusnet::ratio::Ratio;
use nexusnet::time::Duration;

/// The bytes per second of a rate.
fn bytes_per_second(rate: Rate) -> f64 {
    rate.units() as f64 / 4_294_967_296.0
}

#[test]
fn an_empty_estimator_reports_nothing() {
    let estimator = BandwidthEstimator::new();
    assert!(estimator.bytes_per_second().is_none());
    assert!(!estimator.is_confident());
}

#[test]
fn the_first_sample_becomes_the_estimate() {
    let mut estimator = BandwidthEstimator::new();
    estimator.sample(1000, Duration::from_secs(1));

    let estimate = bytes_per_second(estimator.bytes_per_second().expect("one sample exists"));
    assert!(
        (estimate - 1000.0).abs() < 1.0,
        "the first sample should be taken at face value, got {estimate}"
    );
}

#[test]
fn repeated_samples_converge() {
    let mut estimator = BandwidthEstimator::new();
    for _ in 0..50 {
        estimator.sample(2000, Duration::from_secs(1));
    }

    let estimate = bytes_per_second(estimator.bytes_per_second().expect("samples exist"));
    assert!((estimate - 2000.0).abs() < 1.0, "got {estimate}");
    assert!(estimator.is_confident());
}

#[test]
fn a_single_outlier_does_not_dominate() {
    let mut estimator = BandwidthEstimator::new();
    for _ in 0..30 {
        estimator.sample(1000, Duration::from_secs(1));
    }

    // One wildly fast sample.
    estimator.sample(100_000, Duration::from_secs(1));

    let estimate = bytes_per_second(estimator.bytes_per_second().expect("samples exist"));
    assert!(
        estimate < 20_000.0,
        "smoothing should damp an outlier, got {estimate}"
    );
    assert!(
        (bytes_per_second(estimator.peak_bytes_per_second()) - 100_000.0).abs() < 1.0,
        "the peak should still record it"
    );
}

#[test]
fn the_estimate_follows_a_sustained_change() {
    let mut estimator = BandwidthEstimator::new();
    for _ in 0..30 {
        estimator.sample(1000, Duration::from_secs(1));
    }

    // Bandwidth genuinely drops and stays down.
    for _ in 0..40 {
        estimator.sample(200, Duration::from_secs(1));
    }

    let estimate = bytes_per_second(estimator.bytes_per_second().expect("samples exist"));
    assert!(
        (estimate - 200.0).abs() < 50.0,
        "a sustained change should be tracked, got {estimate}"
    );
}

#[test]
fn estimate_degenerate_samples_are_ignored() {
    let mut estimator = BandwidthEstimator::new();
    estimator.sample(1000, Duration::zero());
    estimator.sample(0, Duration::from_secs(1));

    assert!(
        estimator.bytes_per_second().is_none(),
        "a zero interval would imply infinite bandwidth"
    );
    assert_eq!(estimator.samples(), 0);
}

#[test]
fn estimate_resetting_clears_history() {
    let mut estimator = BandwidthEstimator::new();
    estimator.sample(1000, Duration::from_secs(1));
    estimator.reset();

    assert!(estimator.bytes_per_second().is_none());
    assert!((bytes_per_second(estimator.peak_bytes_per_second()) - 0.0).abs() < f64::EPSILON);
}

#[test]
fn an_unsampled_rtt_returns_the_floor() {
    let estimator = RttEstimator::new();
    assert!(estimator.smoothed_rtt().is_none());
    assert_eq!(estimator.retransmit_timeout(), min_retransmit_timeout());
}

#[test]
fn a_stable_link_converges_to_its_rtt() {
    let mut estimator = RttEstimator::new();
    for _ in 0..40 {
        estimator.sample(Duration::from_millis(50));
    }

    let smoothed = estimator.smoothed_rtt().expect("samples exist");
    assert!(
        (smoothed.as_millis() as i64 - 50).abs() <= 2,
        "expected ~50ms, got {smoothed:?}"
    );

    // A stable link has little variation, so the timeout sits near the RTT.
    assert!(estimator.variation() < Duration::from_millis(10));
}

#[test]
fn a_jittery_link_produces_a_wider_timeout() {
    let mut stable = RttEstimator::new();
    let mut jittery = RttEstimator::new();

    for i in 0..40 {
        stable.sample(Duration::from_millis(100));
        // Alternate wildly around the same mean.
        jittery.sample(Duration::from_millis(if i % 2 == 0 { 20 } else { 180 }));
    }

    assert!(
        jittery.retransmit_timeout() > stable.retransmit_timeout(),
        "variation must widen the timeout: jittery {:?} vs stable {:?}",
        jittery.retransmit_timeout(),
        stable.retransmit_timeout()
    );
}

#[test]
fn the_timeout_is_bounded() {
    let mut fast = RttEstimator::new();
    for _ in 0..20 {
        fast.sample(Duration::from_micros(50));
    }
    assert_eq!(
        fast.retransmit_timeout(),
        min_retransmit_timeout(),
        "a very fast link must not produce a hair-trigger timeout"
    );

    let mut slow = RttEstimator::new();
    for _ in 0..20 {
        slow.sample(Duration::from_secs(120));
    }
    assert_eq!(slow.retransmit_timeout(), max_retransmit_timeout());
}

#[test]
fn the_minimum_rtt_is_remembered() {
    let mut estimator = RttEstimator::new();
    estimator.sample(Duration::from_millis(100));
    estimator.sample(Duration::from_millis(30));
    estimator.sample(Duration::from_millis(200));

    assert_eq!(estimator.min_rtt(), Some(Duration::from_millis(30)));
}

#[test]
fn averages_are_exact() {
    let mut estimator = BandwidthEstimator::new();
    estimator.sample(800, Duration::from_secs(1));
    estimator.sample(1600, Duration::from_secs(1));
    let estimate = estimator.bytes_per_second().expect("samples exist");
    assert_eq!(estimate.units(), 900 << 32, "an eighth of the way");
    assert_eq!(estimate.whole_bytes(), 900);
    assert_eq!(estimator.peak_bytes_per_second().whole_bytes(), 1600);
    assert_eq!(estimator.samples(), 2);

    let mut slow = BandwidthEstimator::new();
    slow.sample(1, Duration::from_secs(3));
    let third = slow.bytes_per_second().expect("a sample exists");
    assert_eq!(third.units(), 0x1_0000_0000 / 3);
    assert_eq!(third.whole_bytes(), 0);
}

#[test]
fn smoothing_is_kept_within_bounds() {
    let mut latest = BandwidthEstimator::with_smoothing(Ratio::new(7, 2));
    latest.sample(1000, Duration::from_secs(1));
    latest.sample(3000, Duration::from_secs(1));
    let estimate = latest.bytes_per_second().expect("samples exist");
    assert_eq!(estimate.whole_bytes(), 3000, "a factor of one follows the latest sample");

    let mut barely = BandwidthEstimator::with_smoothing(Ratio::new(0, 1));
    barely.sample(1000, Duration::from_secs(1));
    barely.sample(3000, Duration::from_secs(1));
    let estimate = barely.bytes_per_second().expect("samples exist");
    assert_eq!(estimate.whole_bytes(), 1020, "a hundredth of the way");

    barely.reset();
    barely.sample(1000, Duration::from_secs(1));
    barely.sample(3000, Duration::from_secs(1));
    let estimate = barely.bytes_per_second().expect("samples exist");
    assert_eq!(estimate.whole_bytes(), 1020, "the factor survives a reset");
}

#[test]
fn the_timeout_adds_four_variations() {
    let mut estimator = RttEstimator::new();
    estimator.sample(Duration::zero());
    assert_eq!(estimator.samples(), 0, "an empty round trip is ignored");

    estimator.sample(Duration::from_millis(400));
    assert_eq!(estimator.smoothed_rtt(), Some(Duration::from_millis(400)));
    assert_eq!(estimator.variation(), Duration::from_millis(200));
    assert_eq!(estimator.retransmit_timeout(), Duration::from_millis(1200));

    estimator.sample(Duration::from_millis(800));
    assert_eq!(estimator.smoothed_rtt(), Some(Duration::from_millis(450)));
    assert_eq!(estimator.variation(), Duration::from_millis(250));
    assert_eq!(estimator.retransmit_timeout(), Duration::from_millis(1450));

    estimator.reset();
    assert_eq!(estimator.min_rtt(), None);
    assert_eq!(estimator.variation(), Duration::zero());
    assert_eq!(estimator.retransmit_timeout(), Duration::from_millis(200));
}

#[test]
fn rates_fill_spans() {
    let rate = Rate::of(3, Duration::from_secs(2));
    assert_eq!(rate.over(Duration::from_secs(10)), 15);
    assert_eq!(rate.over(Duration::from_millis(1999)), 2);
    assert!(rate.is_at_most(2));
    assert!(!rate.is_at_most(1));
    let fastest = Rate::of(u64::MAX, Duration::from_nanos(1));
    assert_eq!(fastest.whole_bytes(), u64::MAX);
    assert_eq!(fastest.over(Duration::from_secs(u64::MAX)), u64::MAX);
    assert_eq!(Rate::zero().faster(rate), rate);
}

#[test]
fn estimators_start_empty_by_default() {
    assert_eq!(BandwidthEstimator::default(), BandwidthEstimator::new());
    assert_eq!(RttEstimator::default(), RttEstimator::new());
}
