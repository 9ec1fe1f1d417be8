//! Congestion detection and window control.

use nexusnet::optimizer::{
    default_queueing_threshold, CongestionDetector, CongestionSignal, CongestionState,
    CongestionWindow, DEFAULT_SEGMENT,
};
use nexusnet::ratio::Ratio;
use nexusnet::time::Duration;

/// The value of a fraction.
fn value(ratio: Ratio) -> f64 {
    ratio.numerator as f64 / ratio.denominator as f64
}

#[test]
fn an_unsampled_detector_reports_nothing() {
    let detector = CongestionDetector::new();

    assert_eq!(detector.signal(), CongestionSignal::Clear);
    assert!(detector.inflation().is_none());
    assert!(detector.min_rtt().is_none());
    assert!(detector.queueing_delay().is_none());
}

#[test]
fn a_steady_path_shows_no_congestion() {
    let mut detector = CongestionDetector::new();

    for _ in 0..50 {
        detector.observe(Duration::from_millis(25));
    }

    assert_eq!(detector.signal(), CongestionSignal::Clear);
    assert_eq!(detector.queueing_events(), 0);

    let inflation = detector.inflation().expect("samples exist");
    let inflation = inflation.average as f64 / inflation.floor as f64;
    assert!(
        (inflation - 1.0).abs() < 0.05,
        "a steady path should show no inflation, got {inflation}"
    );
}

#[test]
fn rising_latency_predicts_congestion_before_loss() {
    let mut detector = CongestionDetector::new();

    for _ in 0..20 {
        detector.observe(Duration::from_millis(20));
    }
    assert_eq!(detector.signal(), CongestionSignal::Clear);

    // The queue fills; latency climbs well above the floor.
    for _ in 0..30 {
        detector.observe(Duration::from_millis(100));
    }

    assert_eq!(
        detector.signal(),
        CongestionSignal::Queueing,
        "a filling queue must be detected without waiting for a drop"
    );
    assert_eq!(
        detector.loss_events(),
        0,
        "the whole point is predicting before loss occurs"
    );
    assert!(detector.signal().should_back_off());
}

#[test]
fn a_few_samples_do_not_trigger_a_verdict() {
    let mut detector = CongestionDetector::new();

    detector.observe(Duration::from_millis(10));
    let signal = detector.observe(Duration::from_millis(500));

    assert_eq!(
        signal,
        CongestionSignal::Clear,
        "the minimum has not settled, so almost anything looks inflated"
    );
}

#[test]
fn loss_is_reported_unambiguously() {
    let mut detector = CongestionDetector::new();
    for _ in 0..20 {
        detector.observe(Duration::from_millis(20));
    }

    assert_eq!(detector.observe_loss(), CongestionSignal::Loss);
    assert_eq!(detector.loss_events(), 1);
    assert!(detector.signal().should_back_off());
}

#[test]
fn queueing_delay_is_the_recoverable_latency() {
    let mut detector = CongestionDetector::new();

    for _ in 0..20 {
        detector.observe(Duration::from_millis(20));
    }
    for _ in 0..50 {
        detector.observe(Duration::from_millis(120));
    }

    let delay = detector.queueing_delay().expect("samples exist");
    assert!(
        delay >= Duration::from_millis(70),
        "roughly 100ms of the latency is queue, got {delay:?}"
    );
}

#[test]
fn the_threshold_is_clamped_to_something_usable() {
    // A threshold of 1.0 would report queueing on essentially every sample.
    let detector = CongestionDetector::with_threshold(Ratio::new(1, 2));
    assert!(value(detector.threshold()) >= 1.05);

    let generous = CongestionDetector::with_threshold(Ratio::new(100, 1));
    assert!(value(generous.threshold()) <= 4.0);
}

#[test]
fn resetting_forgets_the_old_path() {
    let mut detector = CongestionDetector::new();
    for _ in 0..20 {
        detector.observe(Duration::from_millis(10));
    }

    detector.reset();

    // A genuinely slower path must not look congested just because the old
    // one was faster.
    for _ in 0..20 {
        detector.observe(Duration::from_millis(200));
    }
    assert_eq!(detector.signal(), CongestionSignal::Clear);
}

#[test]
fn a_new_window_starts_in_slow_start() {
    let window = CongestionWindow::new(1400);

    assert_eq!(window.state(), CongestionState::SlowStart);
    assert_eq!(window.bytes(), 14_000, "ten segments");
    assert_eq!(window.reductions(), 0);
}

#[test]
fn slow_start_grows_quickly() {
    let mut window = CongestionWindow::new(1000);
    let initial = window.bytes();

    // A full window acknowledged should roughly double it.
    for _ in 0..10 {
        window.on_ack(1000);
    }

    assert!(
        window.bytes() >= initial * 2,
        "slow start should double per round trip, got {} from {initial}",
        window.bytes()
    );
}

#[test]
fn congestion_halves_the_window() {
    let mut window = CongestionWindow::new(1000);
    for _ in 0..20 {
        window.on_ack(1000);
    }

    let before = window.bytes();
    window.on_congestion();

    assert!(
        window.bytes() <= before / 2 + 1,
        "expected roughly half of {before}, got {}",
        window.bytes()
    );
    assert_eq!(window.state(), CongestionState::Recovery);
    assert_eq!(window.reductions(), 1);
}

#[test]
fn growth_is_cautious_after_a_reduction() {
    let mut window = CongestionWindow::new(1000);
    for _ in 0..20 {
        window.on_ack(1000);
    }
    window.on_congestion();

    let after_backoff = window.bytes();
    for _ in 0..10 {
        window.on_ack(1000);
    }
    let grown = window.bytes();

    assert_eq!(window.state(), CongestionState::CongestionAvoidance);
    assert!(grown > after_backoff, "the window should still recover");
    assert!(
        grown < after_backoff * 2,
        "but far more slowly than slow start: {after_backoff} -> {grown}"
    );
}

#[test]
fn a_timeout_collapses_the_window() {
    let mut window = CongestionWindow::new(1000);
    for _ in 0..30 {
        window.on_ack(1000);
    }

    window.on_timeout();

    assert_eq!(
        window.bytes(),
        2000,
        "a timeout suggests the path stopped delivering entirely"
    );
    assert_eq!(window.state(), CongestionState::SlowStart);
}

#[test]
fn the_window_never_collapses_to_nothing() {
    let mut window = CongestionWindow::new(1000);

    for _ in 0..50 {
        window.on_congestion();
    }

    assert!(
        window.bytes() >= 2000,
        "a zero window would stall the connection permanently"
    );
}

#[test]
fn sending_is_gated_by_the_window() {
    let window = CongestionWindow::new(1000);

    // Ten 1000-byte segments, so the window is 10,000 bytes.
    assert_eq!(window.bytes(), 10_000);
    assert!(window.can_send(0, 10_000));
    assert!(!window.can_send(10_000, 10_000));
    assert_eq!(window.available(4000), 6000);
    assert_eq!(
        window.available(20_000),
        0,
        "saturating rather than wrapping"
    );
}

#[test]
fn a_queueing_signal_backs_off_like_a_loss() {
    let mut queueing = CongestionWindow::new(1000);
    let mut lost = CongestionWindow::new(1000);

    for _ in 0..20 {
        queueing.on_ack(1000);
        lost.on_ack(1000);
    }

    queueing.apply(CongestionSignal::Queueing);
    lost.apply(CongestionSignal::Loss);

    assert_eq!(
        queueing.bytes(),
        lost.bytes(),
        "an early warning deserves the same response as the event itself"
    );
}

#[test]
fn no_signal_leaves_the_window_alone() {
    let mut window = CongestionWindow::new(1000);
    let before = window.bytes();

    window.apply(CongestionSignal::Clear);
    assert_eq!(window.bytes(), before);
}

#[test]
fn zero_length_acknowledgements_are_ignored() {
    let mut window = CongestionWindow::new(1000);
    let before = window.bytes();

    window.on_ack(0);
    assert_eq!(window.bytes(), before);
}

#[test]
fn resetting_restores_the_initial_window() {
    let mut window = CongestionWindow::new(1000);
    window.on_congestion();
    window.reset();

    assert_eq!(window.bytes(), 10_000);
    assert_eq!(window.state(), CongestionState::SlowStart);
}


#[test]
fn inflation_counts_once_the_floor_has_settled() {
    let mut detector = CongestionDetector::new();
    assert_eq!(detector.observe(Duration::from_millis(10)), CongestionSignal::Clear);
    for _ in 0..6 {
        assert_eq!(detector.observe(Duration::from_millis(500)), CongestionSignal::Clear);
    }
    assert_eq!(detector.observe(Duration::from_millis(500)), CongestionSignal::Queueing);
    assert_eq!(detector.queueing_events(), 1);
    assert_eq!(detector.observe(Duration::zero()), CongestionSignal::Queueing, "ignored");
    assert_eq!(detector.queueing_events(), 1);
    assert_eq!(detector.min_rtt(), Some(Duration::from_millis(10)));

    detector.observe_loss();
    detector.reset();
    assert_eq!(detector.min_rtt(), None);
    assert_eq!(detector.signal(), CongestionSignal::Clear);
    assert_eq!(detector.queueing_events(), 0);
    assert_eq!(detector.loss_events(), 0);
}

#[test]
fn the_threshold_counts_exactly() {
    // From 8 ms, one round trip in five of 18 ms brings the average to 10 ms.
    let mut detector = CongestionDetector::new();
    for _ in 0..8 {
        detector.observe(Duration::from_millis(8));
    }
    assert_eq!(detector.observe(Duration::from_millis(18)), CongestionSignal::Queueing);
    let inflation = detector.inflation().expect("measured");
    assert!(inflation.reaches(default_queueing_threshold()));
    assert!(!inflation.reaches(Ratio::new(1_250_001, 1_000_000)));
    assert_eq!(detector.queueing_delay(), Some(Duration::from_millis(2)));

    let mut detector = CongestionDetector::new();
    for _ in 0..8 {
        detector.observe(Duration::from_millis(8));
    }
    assert_eq!(detector.observe(Duration::from_nanos(17_999_999)), CongestionSignal::Clear);
}

#[test]
fn thresholds_within_bounds_are_kept() {
    assert_eq!(CongestionDetector::default().threshold(), Ratio::new(5, 4));
    let strict = CongestionDetector::with_threshold(Ratio::new(11, 10));
    assert_eq!(strict.threshold(), Ratio::new(11, 10));
    let none = CongestionDetector::with_threshold(Ratio::new(1, 1));
    assert_eq!(none.threshold(), Ratio::new(21, 20));
}

#[test]
fn a_window_acknowledged_adds_one_segment() {
    let mut window = CongestionWindow::new(1000);
    window.on_congestion();
    assert_eq!(window.bytes(), 5000);
    window.on_ack(5000);
    assert_eq!(window.bytes(), 6000);
    assert_eq!(window.state(), CongestionState::CongestionAvoidance);
    window.on_ack(3);
    assert_eq!(window.bytes(), 6000, "half a byte more");
    window.on_ack(4);
    assert_eq!(window.bytes(), 6001);
}

#[test]
fn slow_start_ends_at_the_threshold() {
    let mut window = CongestionWindow::new(1000);
    window.on_timeout();
    assert_eq!(window.bytes(), 2000);
    window.on_ack(2999);
    assert_eq!(window.state(), CongestionState::SlowStart);
    window.on_ack(1);
    assert_eq!(window.bytes(), 5000);
    assert_eq!(window.state(), CongestionState::CongestionAvoidance);
    assert_eq!(window.reductions(), 1);
}

#[test]
fn windows_have_bounds() {
    let mut window = CongestionWindow::new(1000);
    window.on_ack(u64::MAX);
    assert_eq!(window.bytes(), 10_000_000);
    assert_eq!(CongestionWindow::new(0).bytes(), 10, "a segment of one byte at least");
    assert_eq!(CongestionWindow::default().bytes(), 10 * DEFAULT_SEGMENT);

    let mut vast = CongestionWindow::new(u64::MAX);
    assert_eq!(vast.bytes(), u64::MAX, "as far as 64 bits hold it");
    vast.on_congestion();
    vast.on_ack(u64::MAX);
    assert_eq!(vast.state(), CongestionState::CongestionAvoidance);
    assert!(vast.can_send(u64::MAX, u64::MAX), "sums saturate");
    assert!(!CongestionWindow::new(1000).can_send(u64::MAX, 1), "saturating rather than wrapping");
}
