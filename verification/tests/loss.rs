//! The estimate of packet loss.

use nexusnet::optimizer::LossEstimator;
use nexusnet::ratio::Ratio;

/// The value of a fraction.
fn value(ratio: Ratio) -> f64 {
    ratio.numerator as f64 / ratio.denominator as f64
}

#[test]
fn an_unsampled_loss_estimator_reports_nothing() {
    let estimator = LossEstimator::new();
    assert!(estimator.ratio().is_none());
    assert!(!estimator.is_confident());
    assert!((value(estimator.lifetime_ratio()) - 0.0).abs() < f64::EPSILON);
}

#[test]
fn a_lossless_link_reports_no_loss() {
    let mut estimator = LossEstimator::new();
    for _ in 0..50 {
        estimator.record_delivered();
    }

    assert!((value(estimator.ratio().expect("samples exist")) - 0.0).abs() < 1e-9);
    assert!(estimator.is_confident());
    assert_eq!(estimator.delivered(), 50);
    assert_eq!(estimator.lost(), 0);
}

#[test]
fn a_lossy_link_converges_on_its_rate() {
    let mut estimator = LossEstimator::new();
    // A steady one-in-ten loss rate.
    for _ in 0..200 {
        estimator.sample(9, 1);
    }

    let ratio = value(estimator.ratio().expect("samples exist"));
    assert!(
        (ratio - 0.1).abs() < 0.02,
        "expected roughly 10% loss, got {ratio}"
    );
}

#[test]
fn a_burst_of_loss_decays_rather_than_condemning_the_link() {
    let mut estimator = LossEstimator::new();
    for _ in 0..50 {
        estimator.sample(100, 0);
    }

    // One bad moment.
    estimator.sample(0, 50);
    let spiked = value(estimator.ratio().expect("samples exist"));

    // Recovery.
    for _ in 0..50 {
        estimator.sample(100, 0);
    }
    let recovered = value(estimator.ratio().expect("samples exist"));

    assert!(
        recovered < spiked,
        "a transient burst must not permanently condemn a healthy link"
    );
    assert!(recovered < 0.01);
}

#[test]
fn the_lifetime_ratio_does_not_decay() {
    let mut estimator = LossEstimator::new();
    estimator.sample(90, 10);

    assert!((value(estimator.lifetime_ratio()) - 0.1).abs() < 1e-9);

    // Later perfection does not erase the historical record.
    for _ in 0..100 {
        estimator.sample(10, 0);
    }
    assert!(value(estimator.lifetime_ratio()) > 0.0);
    assert!(value(estimator.ratio().expect("samples exist")) < 0.01);
}

#[test]
fn empty_batches_are_ignored() {
    let mut estimator = LossEstimator::new();
    estimator.sample(0, 0);

    assert!(
        estimator.ratio().is_none(),
        "an idle period is not evidence of a lossless link"
    );
}

#[test]
fn quality_resetting_clears_history() {
    let mut estimator = LossEstimator::new();
    estimator.sample(50, 50);
    estimator.reset();

    assert!(estimator.ratio().is_none());
    assert_eq!(estimator.delivered(), 0);
}

#[test]
fn loss_ratios_are_exact() {
    let whole = 1_000_000_000_000_000_000;
    let mut estimator = LossEstimator::default();
    estimator.sample(9, 1);
    assert_eq!(estimator.ratio(), Some(Ratio::new(whole / 10, whole)));
    assert!(!estimator.is_confident());
    estimator.sample(1, 9);
    assert_eq!(estimator.ratio(), Some(Ratio::new(whole / 5, whole)), "an eighth of the way");
    assert!(estimator.is_confident());
    assert_eq!(estimator.lifetime_ratio(), Ratio::new(10, 20));

    let mut latest = LossEstimator::with_smoothing(Ratio::new(1, 1));
    latest.record_delivered();
    latest.record_lost();
    assert_eq!(latest.ratio(), Some(Ratio::new(whole, whole)));
    assert_eq!((latest.delivered(), latest.lost()), (1, 1));
}
