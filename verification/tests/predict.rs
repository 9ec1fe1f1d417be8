//! Trend prediction and predictive scheduling.

use nexusnet::exact::{Fraction, Integer};
use nexusnet::optimizer::{
    advise_send, advise_send_under_congestion, SendAdvice, Trend, TrendPredictor,
};
use nexusnet::time::{Duration, Instant};

fn start() -> Instant {
    Instant::at(Duration::from_secs(1_000))
}

/// Feeds `count` samples one second apart, starting at `first` and changing
/// by `step` each time.
fn feed(predictor: &mut TrendPredictor, origin: Instant, first: i64, step: i64, count: u64) {
    for index in 0..count {
        let value = first + step * index as i64;
        predictor.record(value, origin + Duration::from_secs(index));
    }
}

#[test]
fn too_few_samples_yield_no_forecast() {
    let now = start();
    let mut predictor = TrendPredictor::new();

    assert!(predictor.forecast(now).is_none());

    predictor.record(100, now);
    predictor.record(200, now + Duration::from_secs(1));

    assert!(
        predictor.forecast(now + Duration::from_secs(2)).is_none(),
        "two points always fit a line perfectly, which would be false confidence"
    );
}

#[test]
fn a_falling_measurement_is_degrading() {
    let now = start();
    let mut predictor = TrendPredictor::new();
    feed(&mut predictor, now, 2000, -100, 12);

    let forecast = predictor
        .forecast(now + Duration::from_secs(12))
        .expect("samples exist");

    assert_eq!(forecast.trend, Trend::Degrading);
    assert!(forecast.trend.is_degrading());
    assert!(!forecast.predicted.is_at_least(forecast.current, 1));
    assert!(!forecast.slope_per_second.is_at_least(0, 1));
}

#[test]
fn a_rising_measurement_is_improving() {
    let now = start();
    let mut predictor = TrendPredictor::new();
    feed(&mut predictor, now, 1000, 200, 12);

    let forecast = predictor
        .forecast(now + Duration::from_secs(12))
        .expect("samples exist");

    assert_eq!(forecast.trend, Trend::Improving);
    assert!(!forecast.predicted.is_at_most(forecast.current, 1));
}

#[test]
fn a_flat_measurement_is_stable() {
    let now = start();
    let mut predictor = TrendPredictor::new();
    feed(&mut predictor, now, 1500, 0, 12);

    let forecast = predictor
        .forecast(now + Duration::from_secs(12))
        .expect("samples exist");

    assert_eq!(forecast.trend, Trend::Stable);
    assert!(forecast.predicted.is_exactly(1500, 1));
}

#[test]
fn a_clean_trend_reports_high_confidence() {
    let now = start();
    let mut predictor = TrendPredictor::new();
    feed(&mut predictor, now, 1000, 100, 12);

    let forecast = predictor
        .forecast(now + Duration::from_secs(12))
        .expect("samples exist");

    assert!(
        !forecast.confidence.is_at_most(95, 100),
        "a perfectly linear series should fit almost exactly, got {:?}",
        forecast.confidence
    );
    assert!(forecast.is_actionable());
}

#[test]
fn noise_reports_low_confidence() {
    let now = start();
    let mut predictor = TrendPredictor::new();

    // Alternating values with no underlying direction.
    for index in 0..16_u64 {
        let value = if index % 2 == 0 { 500 } else { 2500 };
        predictor.record(value, now + Duration::from_secs(index));
    }

    let forecast = predictor
        .forecast(now + Duration::from_secs(16))
        .expect("samples exist");

    assert!(
        !forecast.confidence.is_at_least(1, 2),
        "noise around a level is not a trend, got confidence {:?}",
        forecast.confidence
    );
    assert!(
        !forecast.is_actionable(),
        "acting on a line drawn through noise is worse than not predicting"
    );
}

#[test]
fn predictions_never_go_negative() {
    let now = start();
    let mut predictor = TrendPredictor::new().with_horizon(Duration::from_secs(60));
    // Falling fast enough that a straight line would cross zero.
    feed(&mut predictor, now, 1000, -100, 10);

    let forecast = predictor
        .forecast(now + Duration::from_secs(10))
        .expect("samples exist");

    assert!(
        forecast.predicted.is_at_least(0, 1),
        "negative bandwidth is meaningless, got {:?}",
        forecast.predicted
    );
}

#[test]
fn the_window_is_bounded() {
    let now = start();
    let mut predictor = TrendPredictor::new().with_window(5);
    feed(&mut predictor, now, 100, 10, 100);

    assert_eq!(predictor.len(), 5, "old samples must be discarded");
}

#[test]
fn a_tiny_window_is_floored() {
    let predictor = TrendPredictor::new().with_window(1);
    assert!(
        predictor.capacity() >= 3,
        "fewer than three cannot fit a line"
    );
}

#[test]
fn the_window_lets_the_trend_reverse() {
    let now = start();
    let mut predictor = TrendPredictor::new().with_window(8);

    // Rising, then falling.
    feed(&mut predictor, now, 1000, 200, 10);
    for index in 10..24_u64 {
        let value = 3000 - (index - 10) as i64 * 200;
        predictor.record(value, now + Duration::from_secs(index));
    }

    let forecast = predictor
        .forecast(now + Duration::from_secs(24))
        .expect("samples exist");

    assert_eq!(
        forecast.trend,
        Trend::Degrading,
        "a bounded window must let the trend reverse"
    );
}

#[test]
fn relative_change_is_proportional() {
    let now = start();
    let mut predictor = TrendPredictor::new().with_horizon(Duration::from_secs(5));
    feed(&mut predictor, now, 1000, -50, 12);

    let forecast = predictor
        .forecast(now + Duration::from_secs(12))
        .expect("samples exist");

    assert!(
        !forecast.relative_change().is_at_least(0, 1),
        "a falling series should predict a proportional decrease"
    );
}

#[test]
fn samples_at_one_instant_yield_no_slope() {
    let now = start();
    let mut predictor = TrendPredictor::new();

    for _ in 0..10 {
        predictor.record(100, now);
    }

    assert!(
        predictor.forecast(now).is_none(),
        "no time has elapsed, so no rate of change is defined"
    );
}

#[test]
fn predict_resetting_clears_history() {
    let now = start();
    let mut predictor = TrendPredictor::new();
    feed(&mut predictor, now, 1000, 100, 12);

    predictor.reset();
    assert!(predictor.is_empty());
    assert!(predictor.forecast(now).is_none());
}

#[test]
fn degrading_conditions_move_work_earlier() {
    let now = start();
    let mut predictor = TrendPredictor::new();
    feed(&mut predictor, now, 4000, -300, 12);

    let forecast = predictor.forecast(now + Duration::from_secs(12));

    assert_eq!(
        advise_send(forecast.as_ref(), false),
        SendAdvice::SendAggressively,
        "capacity is disappearing, so use it while it exists"
    );
}

#[test]
fn improving_conditions_defer_bulk_work() {
    let now = start();
    let mut predictor = TrendPredictor::new();
    feed(&mut predictor, now, 1000, 400, 12);

    let forecast = predictor.forecast(now + Duration::from_secs(12));
    let advice = advise_send(forecast.as_ref(), false);

    assert!(
        matches!(advice, SendAdvice::Defer { .. }),
        "bulk work can wait for better conditions, got {advice:?}"
    );
    assert!(advice.delay().is_some());
    assert!(!advice.should_send());
}

#[test]
fn urgent_work_is_never_deferred() {
    let now = start();
    let mut predictor = TrendPredictor::new();
    feed(&mut predictor, now, 1000, 400, 12);

    let forecast = predictor.forecast(now + Duration::from_secs(12));

    assert_eq!(
        advise_send(forecast.as_ref(), true),
        SendAdvice::SendNow,
        "a heartbeat does not wait for a better moment"
    );
}

#[test]
fn an_unactionable_forecast_changes_nothing() {
    let now = start();
    let mut predictor = TrendPredictor::new();
    // A barely perceptible drift.
    feed(&mut predictor, now, 1000, -1, 12);

    let forecast = predictor.forecast(now + Duration::from_secs(12));
    assert_eq!(advise_send(forecast.as_ref(), false), SendAdvice::SendNow);
}

#[test]
fn congestion_overrides_the_forecast() {
    let now = start();
    let mut predictor = TrendPredictor::new();
    feed(&mut predictor, now, 4000, -300, 12);

    let forecast = predictor.forecast(now + Duration::from_secs(12));

    assert_eq!(
        advise_send_under_congestion(forecast.as_ref(), false, true),
        SendAdvice::Throttle,
        "a filling queue is a present fact; a trend is an inference"
    );
    assert_eq!(
        advise_send_under_congestion(forecast.as_ref(), true, true),
        SendAdvice::SendAggressively,
        "but urgent work still goes out"
    );
}


#[test]
fn forecasts_are_exact() {
    let now = start();
    let mut predictor = TrendPredictor::new();
    // 10, 14, 12 a second apart: the line rises by one, from eleven.
    predictor.record(10, now);
    predictor.record(14, now + Duration::from_secs(1));
    predictor.record(12, now + Duration::from_secs(2));

    let forecast = predictor.forecast(now + Duration::from_secs(3)).expect("samples exist");
    assert_eq!(forecast.current, 12);
    assert!(forecast.slope_per_second.is_exactly(1, 1));
    assert!(forecast.predicted.is_exactly(19, 1), "eight seconds after the first");
    assert!(forecast.confidence.is_exactly(1, 4));
    assert!(forecast.relative_change().is_exactly(7, 12));
    assert_eq!(forecast.horizon, Duration::from_secs(5));
    assert_eq!(forecast.trend, Trend::Improving);
    assert!(!forecast.is_actionable(), "the line explains a quarter of the scatter");
    assert_eq!(predictor.trend(now), Trend::Improving);
    assert_eq!(predictor.current(), Some(12));

    let copy = predictor.clone().forecast(now + Duration::from_secs(3)).expect("samples exist");
    assert!(copy.clone().predicted.is_exactly(19, 1));
}

#[test]
fn a_falling_line_stops_at_zero() {
    let now = start();
    let mut predictor = TrendPredictor::new().with_horizon(Duration::from_secs(60));
    feed(&mut predictor, now, 1000, -100, 10);
    let forecast = predictor.forecast(now + Duration::from_secs(10)).expect("samples exist");
    assert!(forecast.predicted.is_exactly(0, 1));
    assert!(forecast.relative_change().is_exactly(-1, 1));
    assert!(forecast.confidence.is_exactly(1, 1), "the samples lie on a line");
    assert!(forecast.slope_per_second.is_exactly(-100, 1));
}

#[test]
fn the_trend_turns_at_a_fiftieth_of_the_mean() {
    let now = start();
    let mut steady = TrendPredictor::new();
    // The mean is 100, and the line rises by exactly two.
    feed(&mut steady, now, 98, 2, 3);
    assert_eq!(steady.trend(now), Trend::Stable);
    let mut rising = TrendPredictor::new();
    feed(&mut rising, now, 97, 2, 3);
    assert_eq!(rising.trend(now), Trend::Improving);
    let mut falling = TrendPredictor::new();
    feed(&mut falling, now, 101, -2, 3);
    assert_eq!(falling.trend(now), Trend::Degrading);
    let mut around_zero = TrendPredictor::new();
    feed(&mut around_zero, now, -50, 50, 3);
    assert_eq!(around_zero.trend(now), Trend::Stable, "no proportion is defined");
}

#[test]
fn extremes_do_not_disturb_the_line() {
    let now = start();
    let mut predictor = TrendPredictor::new().with_window(200);
    for step in 0..200_u64 {
        let value = if step < 100 { i64::MIN } else { i64::MAX };
        predictor.record(value, now + Duration::from_secs(step * 1_000_000_000));
    }
    assert_eq!(predictor.len(), 200);
    let forecast = predictor.forecast(now).expect("samples exist");
    assert!(!forecast.slope_per_second.is_at_most(0, 1));
    assert!(forecast.confidence.is_at_least(1, 2));
    assert!(forecast.confidence.is_at_most(1, 1));
    assert!(forecast.predicted.is_exactly(0, 1));
}

#[test]
fn a_change_from_nothing_has_no_proportion() {
    let now = start();
    let mut predictor = TrendPredictor::new();
    feed(&mut predictor, now, 1100, -100, 12);
    let forecast = predictor.forecast(now).expect("samples exist");
    assert_eq!(forecast.current, 0);
    assert!(forecast.relative_change().is_exactly(0, 1));
    assert!(!forecast.is_actionable());
}

#[test]
fn a_smaller_window_keeps_the_latest_samples() {
    let now = start();
    let mut predictor = TrendPredictor::new();
    for (step, value) in [900, 5, 7, 9].into_iter().enumerate() {
        predictor.record(value, now + Duration::from_secs(step as u64));
    }
    let predictor = predictor.with_window(3);
    assert_eq!(predictor.len(), 3);
    let forecast = predictor.forecast(now + Duration::from_secs(4)).expect("samples exist");
    assert!(forecast.slope_per_second.is_exactly(2, 1), "the oldest sample plays no part");
}

#[test]
fn deferred_work_waits_for_half_the_horizon() {
    let now = start();
    let mut predictor = TrendPredictor::default();
    feed(&mut predictor, now, 1000, 400, 12);
    let forecast = predictor.forecast(now + Duration::from_secs(12));
    let advice = advise_send(forecast.as_ref(), false);
    assert_eq!(advice.delay(), Some(Duration::from_millis(2500)));
    assert_eq!(
        advise_send_under_congestion(forecast.as_ref(), false, false),
        SendAdvice::Defer { delay: Duration::from_millis(2500) }
    );
    assert!(!SendAdvice::Throttle.should_send());
    assert_eq!(SendAdvice::Throttle.delay(), None);
    assert!(Trend::Degrading.is_degrading());
    assert!(!Trend::Stable.is_degrading());
}

#[test]
fn whole_numbers_have_any_size() {
    let big = Integer::from_u128(u128::MAX);
    let small = Integer::from_i64(i64::MIN);
    let product = big.times(&small);
    assert!(!product.is_positive());
    assert!(product.plus(&big.times(&Integer::from_u128(1 << 63))).is_zero());
    assert!(big.minus(&big).is_zero());
    assert!(big.is_at_least(&small));
    assert!(!small.is_at_least(&Integer::zero()));
    assert!(small.clone().negated().is_positive());
    assert!(small.minus(&Integer::from_i64(-5)).plus(&Integer::from_u128(1 << 63)).is_at_least(
        &Integer::from_i64(5)
    ));
    let square = big.times(&big);
    assert!(square.minus(&big).is_at_least(&big));
    assert!(!big.is_at_least(&square));
}

#[test]
fn fractions_compare_exactly() {
    let third = Fraction::new(Integer::from_i64(-7), Integer::from_u128(21));
    assert!(third.is_exactly(-1, 3));
    assert!(third.is_at_least(-34, 100));
    assert!(!third.is_at_least(-33, 100));
    assert!(third.is_at_most(-33, 100));
    assert!(!third.is_at_most(-34, 100));
    assert!(!third.numerator().is_positive());
    assert!(third.denominator().is_positive());
}
