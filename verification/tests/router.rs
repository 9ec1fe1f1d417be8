//! Endpoint health and the choice of an endpoint.

use nexusnet::ratio::Ratio;
use nexusnet::router::{default_cooldown, Health, HealthPolicy, HealthTracker, Router, Strategy};
use nexusnet::time::{Duration, Instant};

fn policy() -> HealthPolicy {
    HealthPolicy::new()
        .with_failure_threshold(3)
        .with_success_threshold(2)
        .with_cooldown(Duration::from_secs(30))
}

fn start() -> Instant {
    Instant::at(Duration::from_secs(1000))
}

#[test]
fn a_new_endpoint_is_healthy() {
    let now = start();
    let tracker = HealthTracker::new(policy());

    assert_eq!(tracker.health(now), Health::Healthy);
    assert!(tracker.is_available(now));
    assert_eq!(tracker.success_ratio(), Ratio::new(1, 1));
}

#[test]
fn isolated_failures_do_not_withdraw_an_endpoint() {
    let now = start();
    let mut tracker = HealthTracker::new(policy());

    // Failures interrupted by successes never reach the threshold.
    for _ in 0..10 {
        tracker.record_failure(now);
        tracker.record_failure(now);
        tracker.record_success(now);
    }

    assert!(
        tracker.is_available(now),
        "a flaky-but-working endpoint should stay in the pool"
    );
    assert_eq!(tracker.withdrawals(), 0);
}

#[test]
fn consecutive_failures_withdraw_an_endpoint() {
    let now = start();
    let mut tracker = HealthTracker::new(policy());

    tracker.record_failure(now);
    tracker.record_failure(now);
    assert!(tracker.is_available(now), "still below the threshold");

    tracker.record_failure(now);
    assert_eq!(tracker.health(now), Health::Unhealthy);
    assert!(!tracker.is_available(now));
    assert_eq!(tracker.withdrawals(), 1);
}

#[test]
fn a_withdrawn_endpoint_is_probed_after_its_cooldown() {
    let now = start();
    let mut tracker = HealthTracker::new(policy());

    for _ in 0..3 {
        tracker.record_failure(now);
    }

    assert_eq!(
        tracker.health(now + Duration::from_secs(10)),
        Health::Unhealthy
    );
    assert!(!tracker.accepts_probe(now + Duration::from_secs(10)));

    let after = now + Duration::from_secs(31);
    assert_eq!(tracker.health(after), Health::Recovering);
    assert!(tracker.accepts_probe(after));
    assert!(
        !tracker.is_available(after),
        "recovering endpoints take a probe, not ordinary traffic"
    );
}

#[test]
fn a_failed_probe_restarts_the_cooldown() {
    let now = start();
    let mut tracker = HealthTracker::new(policy());

    for _ in 0..3 {
        tracker.record_failure(now);
    }

    let probe_time = now + Duration::from_secs(31);
    assert!(tracker.accepts_probe(probe_time));

    // The probe fails.
    tracker.record_failure(probe_time);

    assert_eq!(
        tracker.health(probe_time + Duration::from_secs(1)),
        Health::Unhealthy,
        "a failed probe must not be retried immediately"
    );
    assert_eq!(
        tracker.health(probe_time + Duration::from_secs(31)),
        Health::Recovering
    );
}

#[test]
fn recovery_requires_several_successes() {
    let now = start();
    let mut tracker = HealthTracker::new(policy());

    for _ in 0..3 {
        tracker.record_failure(now);
    }

    let probe_time = now + Duration::from_secs(31);

    // One success is not enough to trust it again.
    tracker.record_success(probe_time);
    assert!(
        !tracker.is_available(probe_time),
        "one lucky request is not evidence of recovery"
    );

    tracker.record_success(probe_time);
    assert_eq!(tracker.health(probe_time), Health::Healthy);
    assert!(tracker.is_available(probe_time));
}

#[test]
fn a_failure_during_recovery_reopens_the_circuit() {
    let now = start();
    let mut tracker = HealthTracker::new(policy());

    for _ in 0..3 {
        tracker.record_failure(now);
    }

    let probe_time = now + Duration::from_secs(31);
    tracker.record_success(probe_time);
    tracker.record_failure(probe_time);

    assert_eq!(tracker.health(probe_time), Health::Unhealthy);
}

#[test]
fn success_resets_the_failure_streak() {
    let now = start();
    let mut tracker = HealthTracker::new(policy());

    tracker.record_failure(now);
    tracker.record_failure(now);
    tracker.record_success(now);
    tracker.record_failure(now);
    tracker.record_failure(now);

    assert!(
        tracker.is_available(now),
        "the streak restarted, so the threshold was never reached"
    );
}

#[test]
fn statistics_are_tracked() {
    let now = start();
    let mut tracker = HealthTracker::new(policy());

    for _ in 0..8 {
        tracker.record_success(now);
    }
    for _ in 0..2 {
        tracker.record_failure(now);
    }

    assert_eq!(tracker.total_successes(), 8);
    assert_eq!(tracker.total_failures(), 2);
    assert_eq!(tracker.success_ratio(), Ratio::new(8, 10));
}

#[test]
fn resetting_restores_health() {
    let now = start();
    let mut tracker = HealthTracker::new(policy());

    for _ in 0..3 {
        tracker.record_failure(now);
    }
    assert!(!tracker.is_available(now));

    tracker.reset();
    assert!(tracker.is_available(now));
    assert_eq!(
        tracker.total_failures(),
        3,
        "resetting health should not erase the historical record"
    );
}

#[test]
fn degenerate_thresholds_are_corrected() {
    let corrected = HealthPolicy::new()
        .with_failure_threshold(0)
        .with_success_threshold(0);

    assert_eq!(corrected.failure_threshold, 1);
    assert_eq!(corrected.success_threshold, 1);
}

#[test]
fn health_states_classify_correctly() {
    assert!(Health::Healthy.is_available());
    assert!(!Health::Healthy.is_withdrawn());

    assert!(!Health::Unhealthy.is_available());
    assert!(Health::Unhealthy.is_withdrawn());
    assert!(Health::Recovering.is_withdrawn());

    assert_eq!(Health::Recovering.to_string(), "recovering");
}

fn router() -> Router<&'static str> {
    Router::with_policy(
        Strategy::RoundRobin,
        HealthPolicy::new()
            .with_failure_threshold(3)
            .with_success_threshold(1)
            .with_cooldown(Duration::from_secs(30)),
    )
}

#[test]
fn the_default_strategy_is_round_robin() {
    // Pinned: the default is derived, so a misplaced `#[default]` would
    // silently change how every router balances.
    assert_eq!(Strategy::default(), Strategy::RoundRobin);

    let router: Router<&str> = Router::default();
    assert_eq!(router.strategy(), Strategy::RoundRobin);
}

#[test]
fn an_empty_router_selects_nothing() {
    let now = start();
    let mut router = router();

    assert!(router.is_empty());
    assert_eq!(router.select(now), None);
    assert_eq!(router.stats(now).exhausted, 1);
}

#[test]
fn round_robin_visits_every_endpoint() {
    let now = start();
    let mut router = router();

    let a = router.add("a");
    let b = router.add("b");
    let c = router.add("c");

    assert_eq!(router.select(now), Some(a));
    assert_eq!(router.select(now), Some(b));
    assert_eq!(router.select(now), Some(c));
    assert_eq!(router.select(now), Some(a), "and then wraps around");
}

#[test]
fn withdrawn_endpoints_are_skipped() {
    let now = start();
    let mut router = router();

    let a = router.add("a");
    let b = router.add("b");

    for _ in 0..3 {
        router.record_failure(a, now);
    }

    // Every selection now goes to the survivor.
    for _ in 0..5 {
        assert_eq!(router.select(now), Some(b));
    }

    let stats = router.stats(now);
    assert_eq!(stats.healthy, 1);
    assert_eq!(stats.withdrawn, 1);
}

#[test]
fn a_recovered_endpoint_returns_to_the_rotation() {
    let now = start();
    let mut router = router();

    let a = router.add("a");
    let b = router.add("b");

    for _ in 0..3 {
        router.record_failure(a, now);
    }
    assert_eq!(router.select(now), Some(b));

    // After the cooldown, the withdrawn endpoint is probed first.
    let later = now + Duration::from_secs(31);
    assert_eq!(
        router.select(later),
        Some(a),
        "the probe is what restores capacity, so it takes priority"
    );

    // A successful probe restores it fully.
    router.record_success(a, later);
    assert!(router
        .endpoint(a)
        .expect("present")
        .health(later)
        .is_available());
    assert_eq!(router.stats(later).probes, 1);
}

#[test]
fn a_failed_probe_keeps_the_endpoint_out() {
    let now = start();
    let mut router = router();

    let a = router.add("a");
    let b = router.add("b");

    for _ in 0..3 {
        router.record_failure(a, now);
    }

    let probe_time = now + Duration::from_secs(31);
    assert_eq!(router.select(probe_time), Some(a));
    router.record_failure(a, probe_time);

    // Back out of rotation, without another immediate probe.
    for _ in 0..3 {
        assert_eq!(router.select(probe_time + Duration::from_secs(1)), Some(b));
    }
}

#[test]
fn total_failure_reports_exhaustion() {
    let now = start();
    let mut router = router();

    let a = router.add("a");
    let b = router.add("b");

    for _ in 0..3 {
        router.record_failure(a, now);
        router.record_failure(b, now);
    }

    assert_eq!(
        router.select(now),
        None,
        "routing to a known-dead endpoint is worse than reporting failure"
    );
    assert!(router.stats(now).is_exhausted());
}

#[test]
fn weighted_selection_follows_capacity() {
    let now = start();
    let mut router: Router<&str> = Router::new(Strategy::WeightedRoundRobin);

    let big = router.add_weighted("big", 3);
    let small = router.add_weighted("small", 1);

    let mut big_count = 0;
    let mut small_count = 0;
    for _ in 0..400 {
        match router.select(now) {
            Some(id) if id == big => big_count += 1,
            Some(id) if id == small => small_count += 1,
            _ => {}
        }
    }

    let ratio = f64::from(big_count) / f64::from(small_count);
    assert!(
        (2.5..=3.5).contains(&ratio),
        "expected roughly 3:1, got {ratio:.2}:1 ({big_count} vs {small_count})"
    );
}

#[test]
fn a_zero_weight_is_corrected() {
    let mut router: Router<&str> = Router::new(Strategy::WeightedRoundRobin);
    let id = router.add_weighted("zero", 0);

    assert_eq!(
        router.endpoint(id).expect("present").weight(),
        1,
        "an endpoint that can never be chosen should be removed, not registered"
    );
}

#[test]
fn least_connections_avoids_a_busy_endpoint() {
    let now = start();
    let mut router: Router<&str> = Router::new(Strategy::LeastConnections);

    let busy = router.add("busy");
    let idle = router.add("idle");

    // The busy endpoint is stuck on several slow requests.
    for _ in 0..5 {
        router.record_started(busy);
    }

    assert_eq!(
        router.select(now),
        Some(idle),
        "work should go where there is capacity"
    );
}

#[test]
fn least_connections_accounts_for_weight() {
    let now = start();
    let mut router: Router<&str> = Router::new(Strategy::LeastConnections);

    let big = router.add_weighted("big", 4);
    let small = router.add_weighted("small", 1);

    // Two in flight on a weight-4 backend is lighter load than one on a
    // weight-1 backend.
    router.record_started(big);
    router.record_started(big);
    router.record_started(small);

    assert_eq!(router.select(now), Some(big));
}

#[test]
fn completed_requests_free_capacity() {
    let now = start();
    let mut router: Router<&str> = Router::new(Strategy::LeastConnections);

    let a = router.add("a");
    let _b = router.add("b");

    router.record_started(a);
    assert_eq!(router.endpoint(a).expect("present").in_flight(), 1);

    router.record_success(a, now);
    assert_eq!(router.endpoint(a).expect("present").in_flight(), 0);
}

#[test]
fn endpoints_can_be_removed() {
    let now = start();
    let mut router = router();

    let a = router.add("a");
    let b = router.add("b");

    assert_eq!(router.remove(a), Some("a"));
    assert_eq!(router.len(), 1);
    assert!(router.endpoint(a).is_none());
    assert_eq!(router.remove(a), None, "removing twice is not an error");

    for _ in 0..3 {
        assert_eq!(router.select(now), Some(b));
    }
}

#[test]
fn removing_the_endpoint_at_the_cursor_is_safe() {
    let now = start();
    let mut router = router();

    let a = router.add("a");
    let b = router.add("b");
    let c = router.add("c");

    // Advance the cursor to the end.
    router.select(now);
    router.select(now);
    router.select(now);

    router.remove(c);
    router.remove(b);

    // A stale cursor must not index out of bounds.
    assert_eq!(router.select(now), Some(a));
}

#[test]
fn the_strategy_can_be_changed() {
    let now = start();
    let mut router: Router<&str> = Router::new(Strategy::RoundRobin);
    let a = router.add("a");
    let _b = router.add("b");

    router.set_strategy(Strategy::LeastConnections);
    assert_eq!(router.strategy(), Strategy::LeastConnections);
    assert_eq!(router.select(now), Some(a), "ties break deterministically");
}

#[test]
fn health_can_be_restored_manually() {
    let now = start();
    let mut router = router();
    let a = router.add("a");

    for _ in 0..3 {
        router.record_failure(a, now);
    }
    assert!(router.stats(now).is_exhausted());

    router.reset_health();
    assert_eq!(router.select(now), Some(a));
}

#[test]
fn success_ratios_are_reported_per_endpoint() {
    let now = start();
    let mut router = router();
    let a = router.add("a");

    for _ in 0..9 {
        router.record_success(a, now);
    }
    router.record_failure(a, now);

    let ratio = router.endpoint(a).expect("present").success_ratio();
    assert_eq!(ratio, Ratio::new(9, 10));
}

#[test]
fn addresses_are_retrievable() {
    let mut router = router();
    let a = router.add("10.0.0.1:9000");

    assert_eq!(router.address(a), Some(&"10.0.0.1:9000"));
    assert_eq!(a.to_string(), "endpoint#0");
}


#[test]
fn only_one_probe_is_outstanding_at_a_time() {
    let now = start();
    let mut router = router();
    let a = router.add("a");
    let b = router.add("b");
    for _ in 0..3 {
        router.record_failure(a, now);
    }

    let later = now + Duration::from_secs(31);
    assert_eq!(router.select(later), Some(a), "the probe");
    for _ in 0..4 {
        assert_eq!(router.select(later), Some(b), "no second probe before the first answers");
    }
    router.record_success(a, later);
    assert!(router.endpoint(a).expect("present").health(later).is_available());
}

#[test]
fn weights_are_numbers_of_turns() {
    let now = start();
    let mut router: Router<&str> = Router::new(Strategy::WeightedRoundRobin);
    let big = router.add_weighted("big", 3);
    let small = router.add_weighted("small", 1);
    let turns: Vec<_> = (0..8).map(|_| router.select(now).expect("healthy")).collect();
    assert_eq!(turns.iter().filter(|id| **id == big).count(), 6);
    assert_eq!(turns.iter().filter(|id| **id == small).count(), 2);
}

#[test]
fn load_is_compared_exactly() {
    let now = start();
    let mut router: Router<&str> = Router::new(Strategy::LeastConnections);
    let third = router.add_weighted("third", 3);
    let seventh = router.add_weighted("seventh", 7);
    // One of three is more than two of seven.
    router.record_started(third);
    router.record_started(seventh);
    router.record_started(seventh);
    assert_eq!(router.select(now), Some(seventh));
}

#[test]
fn the_default_policy_is_the_documented_one() {
    let policy = HealthPolicy::default();
    assert_eq!(policy.failure_threshold, 3);
    assert_eq!(policy.success_threshold, 2);
    assert_eq!(policy.cooldown, default_cooldown());
    assert_eq!(default_cooldown(), Duration::from_secs(30));
    assert_eq!(Strategy::WeightedRoundRobin.to_string(), "weighted-round-robin");
    assert_eq!(Strategy::LeastConnections.to_string(), "least-connections");
}

#[test]
fn the_cooldown_ends_exactly_on_time() {
    let now = start();
    let mut tracker = HealthTracker::new(policy());
    for _ in 0..3 {
        tracker.record_failure(now);
    }
    let almost = now + Duration::from_millis(29_999);
    assert_eq!(tracker.health(almost), Health::Unhealthy);
    assert_eq!(tracker.health(now + Duration::from_secs(30)), Health::Recovering);
}

#[test]
fn successes_before_the_cooldown_has_elapsed_restore_nothing() {
    let now = start();
    let mut tracker = HealthTracker::new(policy());
    for _ in 0..3 {
        tracker.record_failure(now);
    }
    tracker.record_success(now);
    tracker.record_success(now);
    assert_eq!(tracker.health(now), Health::Unhealthy);
    assert_eq!(tracker.total_successes(), 2);

    let later = now + Duration::from_secs(30);
    tracker.record_success(later);
    assert_eq!(tracker.health(later), Health::Recovering, "one success is not enough");
    tracker.record_success(later);
    assert_eq!(tracker.health(later), Health::Healthy);
    assert_eq!(tracker.total_successes(), 4);
}
