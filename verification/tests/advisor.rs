//! Sending advice from observed network conditions.

use nexusnet::optimizer::advisor::{compression_for, in_flight_bytes_for, payload_size_for};
use nexusnet::optimizer::{
    CompressionAdvice, Optimizer, DEFAULT_PAYLOAD, MAX_PAYLOAD, MIN_PAYLOAD,
};
use nexusnet::rate::Rate;
use nexusnet::time::Duration;

/// Feeds `count` identical samples of a given rate and round-trip time.
fn train(optimizer: &mut Optimizer, bytes_per_second: u64, rtt: Duration, count: usize) {
    for _ in 0..count {
        optimizer.record_delivery(bytes_per_second, Duration::from_secs(1));
        optimizer.record_rtt(rtt);
    }
}

#[test]
fn an_unmeasured_link_returns_safe_defaults() {
    let optimizer = Optimizer::new();
    let advice = optimizer.recommend();

    assert_eq!(advice.payload_size, DEFAULT_PAYLOAD);
    assert_eq!(advice.compression, CompressionAdvice::Balanced);
    assert!(!advice.confident, "no samples means no confidence");
}

#[test]
fn confidence_requires_samples_from_both_estimators() {
    let mut optimizer = Optimizer::new();

    for _ in 0..10 {
        optimizer.record_delivery(1000, Duration::from_secs(1));
    }
    assert!(
        !optimizer.is_confident(),
        "bandwidth alone is not enough to be confident"
    );

    for _ in 0..10 {
        optimizer.record_rtt(Duration::from_millis(50));
    }
    assert!(optimizer.is_confident());
}

#[test]
fn a_slow_link_is_told_to_compress_hard() {
    let mut optimizer = Optimizer::new();
    train(&mut optimizer, 32 * 1024, Duration::from_millis(300), 10);

    let advice = optimizer.recommend();
    assert_eq!(advice.compression, CompressionAdvice::Maximum);
    assert!(advice.compression.should_compress());
    assert_eq!(advice.compression.level(), 90);
}

#[test]
fn a_very_fast_link_is_told_not_to_compress() {
    let mut optimizer = Optimizer::new();
    train(
        &mut optimizer,
        64 * 1024 * 1024,
        Duration::from_millis(1),
        10,
    );

    let advice = optimizer.recommend();
    assert_eq!(advice.compression, CompressionAdvice::Skip);
    assert!(!advice.compression.should_compress());
}

#[test]
fn a_middling_link_gets_a_middling_level() {
    let mut optimizer = Optimizer::new();
    train(
        &mut optimizer,
        2 * 1024 * 1024,
        Duration::from_millis(40),
        10,
    );

    let advice = optimizer.recommend();
    assert!(
        matches!(
            advice.compression,
            CompressionAdvice::Balanced | CompressionAdvice::Fast
        ),
        "got {:?}",
        advice.compression
    );
}

#[test]
fn payload_size_grows_with_the_bandwidth_delay_product() {
    let mut slow = Optimizer::new();
    train(&mut slow, 64 * 1024, Duration::from_millis(50), 10);

    let mut fast = Optimizer::new();
    train(&mut fast, 16 * 1024 * 1024, Duration::from_millis(50), 10);

    assert!(
        fast.recommend().payload_size > slow.recommend().payload_size,
        "a fatter pipe should carry larger payloads"
    );
}

#[test]
fn advisor_payload_size_stays_within_bounds() {
    // An absurdly fast, high-latency link would suggest a huge payload.
    let mut huge = Optimizer::new();
    train(
        &mut huge,
        10 * 1024 * 1024 * 1024,
        Duration::from_secs(2),
        10,
    );
    assert_eq!(huge.recommend().payload_size, MAX_PAYLOAD);

    // A very slow link would suggest an unusably small one.
    let mut tiny = Optimizer::new();
    train(&mut tiny, 100, Duration::from_millis(10), 10);
    assert_eq!(tiny.recommend().payload_size, MIN_PAYLOAD);
}

#[test]
fn advisor_in_flight_bytes_track_the_bandwidth_delay_product() {
    let mut optimizer = Optimizer::new();
    // 1 MiB/s with a 200ms round trip is roughly 200 KiB in flight.
    train(&mut optimizer, 1024 * 1024, Duration::from_millis(200), 20);

    let advice = optimizer.recommend();
    let expected = (1024.0 * 1024.0 * 0.2) as u64;
    let difference = advice.in_flight_bytes.abs_diff(expected);

    assert!(
        difference < expected / 4,
        "expected about {expected} bytes in flight, got {}",
        advice.in_flight_bytes
    );
}

#[test]
fn the_retry_timeout_follows_the_round_trip_time() {
    let mut quick = Optimizer::new();
    train(&mut quick, 1024 * 1024, Duration::from_millis(20), 20);

    let mut slow = Optimizer::new();
    train(&mut slow, 1024 * 1024, Duration::from_millis(800), 20);

    assert!(
        slow.recommend().retry_timeout > quick.recommend().retry_timeout,
        "a slower path must wait longer before retrying"
    );
}

#[test]
fn advice_adapts_when_conditions_change() {
    let mut optimizer = Optimizer::new();

    // Start on a fast link.
    train(
        &mut optimizer,
        64 * 1024 * 1024,
        Duration::from_millis(5),
        20,
    );
    assert_eq!(optimizer.recommend().compression, CompressionAdvice::Skip);

    // The link degrades badly and stays down.
    train(&mut optimizer, 16 * 1024, Duration::from_millis(500), 80);
    assert_eq!(
        optimizer.recommend().compression,
        CompressionAdvice::Maximum,
        "sustained degradation should change the advice"
    );
}

#[test]
fn resetting_returns_to_defaults() {
    let mut optimizer = Optimizer::new();
    train(&mut optimizer, 16 * 1024, Duration::from_millis(300), 10);
    assert!(optimizer.is_confident());

    optimizer.reset();
    assert!(!optimizer.is_confident());
    assert_eq!(optimizer.recommend().payload_size, DEFAULT_PAYLOAD);
}


fn rate(bytes_per_second: u64) -> Option<Rate> {
    Some(Rate::of(bytes_per_second, Duration::from_secs(1)))
}

#[test]
fn advice_follows_the_rate_of_the_link() {
    assert_eq!(compression_for(None), CompressionAdvice::Balanced);
    assert_eq!(compression_for(rate(32 * 1024)), CompressionAdvice::Maximum);
    assert_eq!(compression_for(rate(256 * 1024)), CompressionAdvice::Maximum);
    let barely_more = Rate::of(256 * 1024 * 1000 + 1, Duration::from_secs(1000));
    assert_eq!(compression_for(Some(barely_more)), CompressionAdvice::Balanced);
    assert_eq!(compression_for(rate(2 * 1024 * 1024)), CompressionAdvice::Balanced);
    assert_eq!(compression_for(rate(8 * 1024 * 1024)), CompressionAdvice::Fast);
    assert_eq!(compression_for(rate(32 * 1024 * 1024)), CompressionAdvice::Skip);
}

#[test]
fn payloads_and_budgets_follow_the_product() {
    assert_eq!(payload_size_for(None), DEFAULT_PAYLOAD);
    assert_eq!(payload_size_for(Some(1)), MIN_PAYLOAD);
    assert_eq!(payload_size_for(Some(80_000)), 10_000);
    assert_eq!(payload_size_for(Some(u64::MAX)), MAX_PAYLOAD);
    assert_eq!(in_flight_bytes_for(None), 11_200);
    assert_eq!(in_flight_bytes_for(Some(1)), 1024);
    assert_eq!(in_flight_bytes_for(Some(209_715)), 209_715);
}

#[test]
fn recommendations_are_exact() {
    let mut optimizer = Optimizer::default();
    optimizer.record_delivery(80_000, Duration::from_secs(1));
    assert_eq!(optimizer.recommend().payload_size, DEFAULT_PAYLOAD, "no round trip yet");
    optimizer.record_rtt(Duration::from_millis(500));

    let advice = optimizer.recommend();
    assert_eq!(advice.in_flight_bytes, 40_000);
    assert_eq!(advice.payload_size, 5_000);
    assert_eq!(advice.retry_timeout, Duration::from_millis(1500));
    assert_eq!(advice.compression, CompressionAdvice::Maximum);
    assert!(!advice.confident);
    assert_eq!(optimizer.bandwidth().samples(), 1);
    assert_eq!(optimizer.rtt().samples(), 1);
}
