//! Grades, strategies and the decisions that measurements lead to.

use nexusnet::optimizer::{
    advise_send, CacheStrategy, CompressionAdvice, CompressionStrategy, CongestionSignal,
    CongestionState, DeltaSyncStrategy, NetworkQuality, SendAdvice, Trend, MIN_COMPRESSIBLE,
    MIN_DELTA_PAYLOAD,
};
use nexusnet::ratio::Ratio;
use nexusnet::time::Duration;

#[test]
fn grades_order_by_quality() {
    assert!(NetworkQuality::Excellent > NetworkQuality::Good);
    assert!(NetworkQuality::Good > NetworkQuality::Fair);
    assert!(NetworkQuality::Fair > NetworkQuality::Poor);
    assert!(NetworkQuality::Poor > NetworkQuality::Critical);
    assert_eq!(NetworkQuality::Excellent.score(), 4);
}

#[test]
fn bandwidth_is_graded_across_its_range() {
    assert_eq!(
        NetworkQuality::from_bandwidth(50 * 1024 * 1024),
        NetworkQuality::Excellent
    );
    assert_eq!(
        NetworkQuality::from_bandwidth(2 * 1024 * 1024),
        NetworkQuality::Good
    );
    assert_eq!(
        NetworkQuality::from_bandwidth(400 * 1024),
        NetworkQuality::Fair
    );
    assert_eq!(
        NetworkQuality::from_bandwidth(64 * 1024),
        NetworkQuality::Poor
    );
    assert_eq!(
        NetworkQuality::from_bandwidth(1024),
        NetworkQuality::Critical
    );
}

#[test]
fn latency_is_graded_across_its_range() {
    assert_eq!(
        NetworkQuality::from_rtt(Duration::from_millis(10)),
        NetworkQuality::Excellent
    );
    assert_eq!(
        NetworkQuality::from_rtt(Duration::from_millis(80)),
        NetworkQuality::Good
    );
    assert_eq!(
        NetworkQuality::from_rtt(Duration::from_millis(200)),
        NetworkQuality::Fair
    );
    assert_eq!(
        NetworkQuality::from_rtt(Duration::from_millis(500)),
        NetworkQuality::Poor
    );
    assert_eq!(
        NetworkQuality::from_rtt(Duration::from_secs(2)),
        NetworkQuality::Critical
    );
}

#[test]
fn loss_is_graded_harshly() {
    assert_eq!(NetworkQuality::from_loss(Ratio::new(0, 1)), NetworkQuality::Excellent);
    assert_eq!(NetworkQuality::from_loss(Ratio::new(5, 1000)), NetworkQuality::Good);
    assert_eq!(NetworkQuality::from_loss(Ratio::new(2, 100)), NetworkQuality::Fair);
    assert_eq!(NetworkQuality::from_loss(Ratio::new(7, 100)), NetworkQuality::Poor);
    assert_eq!(
        NetworkQuality::from_loss(Ratio::new(25, 100)),
        NetworkQuality::Critical,
        "a quarter of packets lost is not a usable link"
    );
}

#[test]
fn the_worst_dimension_decides() {
    // Excellent bandwidth cannot disguise catastrophic loss.
    let combined = NetworkQuality::worst_of(&[
        NetworkQuality::Excellent,
        NetworkQuality::Excellent,
        NetworkQuality::Critical,
    ]);

    assert_eq!(
        combined,
        Some(NetworkQuality::Critical),
        "averaging would flatter a link that is actually failing"
    );
}

#[test]
fn combining_nothing_yields_nothing() {
    assert_eq!(NetworkQuality::worst_of(&[]), None);
}

#[test]
fn degradation_starts_at_fair() {
    assert!(!NetworkQuality::Excellent.is_degraded());
    assert!(!NetworkQuality::Good.is_degraded());
    assert!(NetworkQuality::Fair.is_degraded());
    assert!(NetworkQuality::Poor.is_degraded());
    assert!(NetworkQuality::Critical.is_degraded());

    assert!(NetworkQuality::Critical.is_critical());
    assert!(!NetworkQuality::Poor.is_critical());
}

#[test]
fn grades_display_and_describe() {
    assert_eq!(NetworkQuality::Fair.to_string(), "fair");
    assert!(NetworkQuality::Poor.description().contains("poor"));
}

#[test]
fn compression_intensifies_as_the_link_degrades() {
    let mut previous = 0_u8;

    // Walk from best to worst; the level must never decrease.
    for quality in [
        NetworkQuality::Excellent,
        NetworkQuality::Good,
        NetworkQuality::Fair,
        NetworkQuality::Poor,
        NetworkQuality::Critical,
    ] {
        let strategy = CompressionStrategy::for_quality(quality);
        assert!(
            strategy.level >= previous,
            "{quality:?} should compress at least as hard as the grade above it"
        );
        previous = strategy.level;
    }
}

#[test]
fn a_fast_link_skips_compression() {
    let strategy = CompressionStrategy::for_quality(NetworkQuality::Excellent);
    assert!(!strategy.enabled);
    assert!(!strategy.applies_to(1_000_000));
}

#[test]
fn a_failing_link_compresses_hard() {
    let strategy = CompressionStrategy::for_quality(NetworkQuality::Critical);
    assert!(strategy.enabled);
    assert!(strategy.level >= 90);
    assert!(strategy.applies_to(4096));
}

#[test]
fn tiny_payloads_are_never_compressed() {
    let strategy = CompressionStrategy::for_quality(NetworkQuality::Critical);
    assert!(!strategy.applies_to(8), "framing would exceed the saving");
    assert!(strategy.applies_to(MIN_COMPRESSIBLE));
}

#[test]
fn the_compression_threshold_is_adjustable() {
    let strategy =
        CompressionStrategy::for_quality(NetworkQuality::Poor).with_min_payload(4096);

    assert!(!strategy.applies_to(1024));
    assert!(strategy.applies_to(4096));
}

#[test]
fn a_disabled_compression_strategy_never_applies() {
    let strategy = CompressionStrategy::disabled();
    assert!(!strategy.enabled);
    assert!(!strategy.applies_to(usize::MAX));
}

#[test]
fn cache_generosity_grows_as_the_link_degrades() {
    let excellent = CacheStrategy::for_quality(NetworkQuality::Excellent);
    let critical = CacheStrategy::for_quality(NetworkQuality::Critical);

    assert!(
        critical.capacity_bytes > excellent.capacity_bytes,
        "a slow link should spend more memory to avoid re-fetching"
    );
    assert!(
        critical.ttl > excellent.ttl,
        "a slow link should tolerate staler data"
    );
}

#[test]
fn cache_ttl_is_monotonic_across_grades() {
    let mut previous = Duration::zero();

    for quality in [
        NetworkQuality::Excellent,
        NetworkQuality::Good,
        NetworkQuality::Fair,
        NetworkQuality::Poor,
        NetworkQuality::Critical,
    ] {
        let ttl = CacheStrategy::for_quality(quality).ttl;
        assert!(ttl >= previous, "{quality:?} shortened the time to live");
        previous = ttl;
    }
}

#[test]
fn small_entries_are_not_cached() {
    let strategy = CacheStrategy::for_quality(NetworkQuality::Poor);
    assert!(!strategy.applies_to(1));
    assert!(strategy.applies_to(4096));

    let disabled = CacheStrategy::disabled();
    assert!(!disabled.applies_to(usize::MAX));
}

#[test]
fn delta_sync_activates_only_when_bandwidth_is_scarce() {
    assert!(!DeltaSyncStrategy::for_quality(NetworkQuality::Excellent).enabled);
    assert!(!DeltaSyncStrategy::for_quality(NetworkQuality::Good).enabled);
    assert!(DeltaSyncStrategy::for_quality(NetworkQuality::Fair).enabled);
    assert!(DeltaSyncStrategy::for_quality(NetworkQuality::Poor).enabled);
    assert!(DeltaSyncStrategy::for_quality(NetworkQuality::Critical).enabled);
}

#[test]
fn small_payloads_are_sent_whole() {
    let strategy = DeltaSyncStrategy::for_quality(NetworkQuality::Poor);
    assert!(!strategy.applies_to(64));
    assert!(strategy.applies_to(MIN_DELTA_PAYLOAD));
}

#[test]
fn a_delta_that_saves_little_is_rejected() {
    let strategy = DeltaSyncStrategy::for_quality(NetworkQuality::Fair);

    // 60% of the original is within the 70% ceiling.
    assert!(strategy.accepts_delta(600, 1000));
    // 90% is not worth the work on both sides.
    assert!(!strategy.accepts_delta(900, 1000));
}

#[test]
fn a_degraded_link_tolerates_a_weaker_delta() {
    let fair = DeltaSyncStrategy::for_quality(NetworkQuality::Fair);
    let critical = DeltaSyncStrategy::for_quality(NetworkQuality::Critical);

    assert!(
        !fair.max_delta_ratio.admits(critical.max_delta_ratio.numerator, critical.max_delta_ratio.denominator),
        "when bytes are scarce, even a modest saving is worth having"
    );
    assert!(critical.accepts_delta(850, 1000));
    assert!(!fair.accepts_delta(850, 1000));
}

#[test]
fn a_zero_length_original_cannot_be_improved() {
    let strategy = DeltaSyncStrategy::for_quality(NetworkQuality::Critical);
    assert!(!strategy.accepts_delta(0, 0));
}

#[test]
fn a_stale_base_is_refused() {
    let strategy = DeltaSyncStrategy::for_quality(NetworkQuality::Fair);

    assert!(strategy.accepts_base_age(Duration::from_secs(60)));
    assert!(!strategy.accepts_base_age(Duration::from_secs(3600)));
}

#[test]
fn a_disabled_delta_strategy_refuses_everything() {
    let strategy = DeltaSyncStrategy::disabled();

    assert!(!strategy.applies_to(usize::MAX));
    assert!(!strategy.accepts_delta(1, 1_000_000));
    assert!(!strategy.accepts_base_age(Duration::zero()));
}

#[test]
fn compression_levels_are_ordered() {
    assert!(CompressionAdvice::Skip < CompressionAdvice::Fast);
    assert!(CompressionAdvice::Fast < CompressionAdvice::Balanced);
    assert!(CompressionAdvice::Balanced < CompressionAdvice::Maximum);

    assert!(CompressionAdvice::Maximum.level() > CompressionAdvice::Balanced.level());
    assert_eq!(CompressionAdvice::Skip.level(), 0);
}

#[test]
fn signals_and_states_display() {
    assert_eq!(CongestionSignal::Queueing.to_string(), "queueing");
    assert_eq!(CongestionState::SlowStart.to_string(), "slow-start");
    assert!(!CongestionSignal::Clear.should_back_off());
}

#[test]
fn no_forecast_means_send_normally() {
    assert_eq!(advise_send(None, false), SendAdvice::SendNow);
    assert!(advise_send(None, false).should_send());
}

#[test]
fn trends_display() {
    assert_eq!(Trend::Degrading.to_string(), "degrading");
    assert!(Trend::Improving.is_improving());
}

#[test]
fn every_grade_is_listed_worst_first() {
    let all = NetworkQuality::all();
    assert_eq!(all.len(), 5);
    for pair in all.windows(2) {
        assert!(pair[0] < pair[1]);
        assert!(pair[0].score() < pair[1].score());
    }
    assert_eq!(NetworkQuality::default(), NetworkQuality::Good);
}

#[test]
fn grades_change_exactly_at_their_limits() {
    assert_eq!(NetworkQuality::from_bandwidth(8 * 1024 * 1024), NetworkQuality::Excellent);
    assert_eq!(NetworkQuality::from_bandwidth(8 * 1024 * 1024 - 1), NetworkQuality::Good);
    assert_eq!(NetworkQuality::from_bandwidth(32 * 1024 - 1), NetworkQuality::Critical);
    assert_eq!(
        NetworkQuality::from_rtt(Duration::from_micros(30_999)),
        NetworkQuality::Excellent
    );
    assert_eq!(NetworkQuality::from_rtt(Duration::from_millis(31)), NetworkQuality::Good);
    assert_eq!(NetworkQuality::from_loss(Ratio::new(1, 1000)), NetworkQuality::Excellent);
    assert_eq!(NetworkQuality::from_loss(Ratio::new(10, 100)), NetworkQuality::Poor);
    assert_eq!(NetworkQuality::from_loss(Ratio::new(101, 1000)), NetworkQuality::Critical);
}
