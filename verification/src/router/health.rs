//! Endpoint health tracking.
//!
//! Removing a failing endpoint is easy. Deciding when to put it back is the part
//! that goes wrong, in two directions: return it too eagerly and traffic keeps
//! hitting a broken server; never return it and a transient blip permanently
//! shrinks the pool.
//!
//! [`HealthTracker`] is a circuit breaker. An endpoint that fails repeatedly
//! opens its circuit and is withdrawn. After a cooldown it is due for probes:
//! success closes the circuit, failure reopens it for another cooldown.

use crate::ratio::Ratio;
use crate::time;
use crate::time::{Duration, Instant};
use vstd::prelude::*;

verus! {

/// The default consecutive failures before an endpoint is withdrawn.
pub const DEFAULT_FAILURE_THRESHOLD: u32 = 3;

/// The default successes required while recovering before full recovery.
pub const DEFAULT_SUCCESS_THRESHOLD: u32 = 2;

/// The default cooldown before a withdrawn endpoint is probed again, in
/// seconds.
pub const DEFAULT_COOLDOWN_SECS: u64 = 30;

/// The default cooldown before a withdrawn endpoint is probed again.
pub fn default_cooldown() -> (d: Duration)
    ensures
        d.nanos() == DEFAULT_COOLDOWN_SECS * 1_000_000_000,
{
    Duration::from_secs(DEFAULT_COOLDOWN_SECS)
}

/// Whether an endpoint is currently usable.
#[derive(Debug, Clone, Copy, PartialEq, Eq, Hash, Structural)]
#[non_exhaustive]
pub enum Health {
    /// Accepting traffic normally.
    Healthy,
    /// Withdrawn after repeated failures.
    Unhealthy,
    /// Withdrawn, but due for a probe.
    ///
    /// One request is allowed through to test recovery. Everything else keeps
    /// avoiding this endpoint until that probe resolves.
    Recovering,
}

impl Health {
    /// Returns `true` if the endpoint may serve ordinary traffic.
    pub fn is_available(self) -> (r: bool)
        ensures
            r == (self is Healthy),
    {
        match self {
            Health::Healthy => true,
            _ => false,
        }
    }

    /// Returns `true` if the endpoint is withdrawn.
    pub fn is_withdrawn(self) -> (r: bool)
        ensures
            r == (self is Unhealthy || self is Recovering),
    {
        match self {
            Health::Unhealthy | Health::Recovering => true,
            _ => false,
        }
    }

    /// The state in a word.
    pub open spec fn text(self) -> Seq<char> {
        match self {
            Health::Healthy => "healthy"@,
            Health::Unhealthy => "unhealthy"@,
            Health::Recovering => "recovering"@,
        }
    }

    /// Returns the state in a word.
    pub fn to_string(&self) -> (s: String)
        ensures
            s@ == self.text(),
    {
        match self {
            Health::Healthy => "healthy".to_owned(),
            Health::Unhealthy => "unhealthy".to_owned(),
            Health::Recovering => "recovering".to_owned(),
        }
    }
}

/// How aggressively to withdraw and restore endpoints.
#[derive(Debug, Clone, Copy, PartialEq, Eq, Structural)]
pub struct HealthPolicy {
    /// Consecutive failures that withdraw an endpoint.
    pub failure_threshold: u32,
    /// Consecutive successes while recovering that restore it.
    pub success_threshold: u32,
    /// How long to wait before probing a withdrawn endpoint.
    pub cooldown: Duration,
}

/// `n`, or one where it is zero.
pub open spec fn at_least_one(n: u32) -> u32 {
    if n == 0 {
        1
    } else {
        n
    }
}

impl HealthPolicy {
    /// Creates a policy with default values.
    pub fn new() -> (p: HealthPolicy)
        ensures
            p.failure_threshold == DEFAULT_FAILURE_THRESHOLD,
            p.success_threshold == DEFAULT_SUCCESS_THRESHOLD,
            p.cooldown.nanos() == DEFAULT_COOLDOWN_SECS * 1_000_000_000,
    {
        HealthPolicy {
            failure_threshold: DEFAULT_FAILURE_THRESHOLD,
            success_threshold: DEFAULT_SUCCESS_THRESHOLD,
            cooldown: default_cooldown(),
        }
    }

    /// Sets the failure threshold.
    ///
    /// Zero is raised to one; withdrawing on zero failures would remove every
    /// endpoint immediately.
    pub fn with_failure_threshold(self, failure_threshold: u32) -> (p: HealthPolicy)
        ensures
            p == (HealthPolicy { failure_threshold: at_least_one(failure_threshold), ..self }),
    {
        HealthPolicy {
            failure_threshold: if failure_threshold == 0 {
                1
            } else {
                failure_threshold
            },
            ..self
        }
    }

    /// Sets the success threshold for recovery. Zero is raised to one.
    pub fn with_success_threshold(self, success_threshold: u32) -> (p: HealthPolicy)
        ensures
            p == (HealthPolicy { success_threshold: at_least_one(success_threshold), ..self }),
    {
        HealthPolicy {
            success_threshold: if success_threshold == 0 {
                1
            } else {
                success_threshold
            },
            ..self
        }
    }

    /// Sets the cooldown before probing.
    pub fn with_cooldown(self, cooldown: Duration) -> (p: HealthPolicy)
        ensures
            p == (HealthPolicy { cooldown, ..self }),
    {
        HealthPolicy { cooldown, ..self }
    }
}

impl Default for HealthPolicy {
    fn default() -> (p: HealthPolicy)
        ensures
            p.failure_threshold == DEFAULT_FAILURE_THRESHOLD,
            p.success_threshold == DEFAULT_SUCCESS_THRESHOLD,
            p.cooldown.nanos() == DEFAULT_COOLDOWN_SECS * 1_000_000_000,
    {
        HealthPolicy::new()
    }
}

/// What is known of one endpoint's health.
pub struct HealthState {
    /// How aggressively to withdraw and restore.
    pub policy: HealthPolicy,
    /// Failures since the last success.
    pub failures: u32,
    /// Successes since the last failure, while due for a probe.
    pub successes: u32,
    /// When the circuit opened, if it is open.
    pub opened_at: Option<Instant>,
    /// Successful requests observed.
    pub total_successes: u64,
    /// Failed requests observed.
    pub total_failures: u64,
    /// How many times the endpoint was withdrawn.
    pub withdrawals: u64,
}

impl HealthState {
    /// An endpoint of which nothing is known yet.
    pub open spec fn fresh(policy: HealthPolicy) -> HealthState {
        HealthState {
            policy,
            failures: 0,
            successes: 0,
            opened_at: None,
            total_successes: 0,
            total_failures: 0,
            withdrawals: 0,
        }
    }

    /// The health at `now`: a withdrawn endpoint is due for a probe once its
    /// cooldown has elapsed.
    pub open spec fn health(self, now: Instant) -> Health {
        match self.opened_at {
            None => Health::Healthy,
            Some(opened) => if time::since(now, opened) >= self.policy.cooldown.nanos() {
                Health::Recovering
            } else {
                Health::Unhealthy
            },
        }
    }

    /// The counters have room for one more request.
    pub open spec fn can_count(self) -> bool {
        &&& self.failures < u32::MAX
        &&& self.successes < u32::MAX
        &&& self.total_successes < u64::MAX
        &&& self.total_failures < u64::MAX
        &&& self.withdrawals < u64::MAX
    }

    /// After a successful request at `now`. Enough of them in a row, once the
    /// cooldown has elapsed, close the circuit.
    pub open spec fn after_success(self, now: Instant) -> HealthState {
        let counted = HealthState {
            total_successes: (self.total_successes + 1) as u64,
            failures: 0,
            ..self
        };
        if !(self.health(now) is Recovering) {
            counted
        } else if self.successes + 1 >= self.policy.success_threshold {
            HealthState { opened_at: None, successes: 0, ..counted }
        } else {
            HealthState { successes: (self.successes + 1) as u32, ..counted }
        }
    }

    /// After a failed request at `now`. Enough of them in a row open the
    /// circuit, and any of them restarts the cooldown of an open one.
    pub open spec fn after_failure(self, now: Instant) -> HealthState {
        let counted = HealthState {
            total_failures: (self.total_failures + 1) as u64,
            successes: 0,
            failures: (self.failures + 1) as u32,
            ..self
        };
        if self.opened_at is Some {
            HealthState { opened_at: Some(now), ..counted }
        } else if self.failures + 1 >= self.policy.failure_threshold {
            HealthState {
                opened_at: Some(now),
                withdrawals: (self.withdrawals + 1) as u64,
                ..counted
            }
        } else {
            counted
        }
    }

    /// With failure history discarded.
    pub open spec fn restored(self) -> HealthState {
        HealthState { failures: 0, successes: 0, opened_at: None, ..self }
    }

    /// After `n` failed requests at `now`.
    pub open spec fn after_failures(self, n: nat, now: Instant) -> HealthState
        decreases n,
    {
        if n == 0 {
            self
        } else {
            self.after_failures((n - 1) as nat, now).after_failure(now)
        }
    }

    /// After `n` successful requests at `now`.
    pub open spec fn after_successes(self, n: nat, now: Instant) -> HealthState
        decreases n,
    {
        if n == 0 {
            self
        } else {
            self.after_successes((n - 1) as nat, now).after_success(now)
        }
    }
}

/// A healthy endpoint with no failures on record is withdrawn by as many
/// failures in a row as the threshold says, and by no fewer.
pub proof fn failures_in_a_row_withdraw(s: HealthState, n: nat, now: Instant)
    requires
        s.opened_at is None,
        s.failures == 0,
        s.withdrawals < u64::MAX,
        1 <= n <= s.policy.failure_threshold,
    ensures
        s.after_failures(n, now).opened_at == if n == s.policy.failure_threshold {
            Some(now)
        } else {
            None
        },
        s.after_failures(n, now).failures == n,
        s.after_failures(n, now).policy == s.policy,
        s.after_failures(n, now).withdrawals == s.withdrawals + if n == s.policy.failure_threshold {
            1int
        } else {
            0
        },
    decreases n,
{
    if n > 1 {
        failures_in_a_row_withdraw(s, (n - 1) as nat, now);
    } else {
        reveal_with_fuel(HealthState::after_failures, 2);
    }
}

/// A success ends a streak of failures: what came before it does not count
/// toward withdrawal.
pub proof fn success_ends_the_streak(s: HealthState, now: Instant)
    ensures
        s.after_success(now).failures == 0,
        s.opened_at is None ==> s.after_success(now).opened_at is None,
{
}

/// An endpoint that is due for a probe and has not succeeded since it was
/// withdrawn is restored by as many successes in a row as the threshold says, and
/// by no fewer.
pub proof fn successes_in_a_row_restore(s: HealthState, n: nat, now: Instant)
    requires
        s.health(now) is Recovering,
        s.successes == 0,
        1 <= n <= s.policy.success_threshold,
    ensures
        s.after_successes(n, now).opened_at == if n == s.policy.success_threshold {
            None
        } else {
            s.opened_at
        },
        s.after_successes(n, now).successes == if n == s.policy.success_threshold {
            0
        } else {
            n
        },
        s.after_successes(n, now).policy == s.policy,
    decreases n,
{
    if n > 1 {
        successes_in_a_row_restore(s, (n - 1) as nat, now);
    } else {
        reveal_with_fuel(HealthState::after_successes, 2);
    }
}

/// Before its cooldown has elapsed, no number of successes brings a withdrawn
/// endpoint back, or nearer to coming back.
pub proof fn early_successes_do_not_restore(s: HealthState, n: nat, now: Instant)
    requires
        s.health(now) is Unhealthy,
    ensures
        s.after_successes(n, now).health(now) is Unhealthy,
        s.after_successes(n, now).opened_at == s.opened_at,
        s.after_successes(n, now).successes == s.successes,
        s.after_successes(n, now).policy == s.policy,
    decreases n,
{
    if n > 0 {
        early_successes_do_not_restore(s, (n - 1) as nat, now);
    }
}

/// A failed probe is not retried before another full cooldown has passed, and
/// from that moment on the endpoint is due again.
pub proof fn failed_probe_restarts_the_cooldown(s: HealthState, failed: Instant, now: Instant)
    requires
        s.opened_at is Some,
        failed.nanos() <= now.nanos(),
        now.nanos() - failed.nanos() <= time::MAX_NANOS,
    ensures
        s.after_failure(failed).health(now) == if now.nanos() - failed.nanos()
            < s.policy.cooldown.nanos() {
            Health::Unhealthy
        } else {
            Health::Recovering
        },
{
}

/// Tracks one endpoint's health.
#[derive(Debug, Clone)]
pub struct HealthTracker {
    policy: HealthPolicy,
    consecutive_failures: u32,
    consecutive_successes: u32,
    /// When the circuit opened, if it is open.
    opened_at: Option<Instant>,
    total_successes: u64,
    total_failures: u64,
    withdrawals: u64,
}

impl View for HealthTracker {
    type V = HealthState;

    closed spec fn view(&self) -> HealthState {
        HealthState {
            policy: self.policy,
            failures: self.consecutive_failures,
            successes: self.consecutive_successes,
            opened_at: self.opened_at,
            total_successes: self.total_successes,
            total_failures: self.total_failures,
            withdrawals: self.withdrawals,
        }
    }
}

impl HealthTracker {
    /// Creates a tracker applying `policy`, starting healthy.
    pub fn new(policy: HealthPolicy) -> (t: HealthTracker)
        ensures
            t@ == HealthState::fresh(policy),
    {
        HealthTracker {
            policy,
            consecutive_failures: 0,
            consecutive_successes: 0,
            opened_at: None,
            total_successes: 0,
            total_failures: 0,
            withdrawals: 0,
        }
    }

    /// Returns the health as of `now`.
    ///
    /// A withdrawn endpoint becomes [`Health::Recovering`] once its cooldown
    /// has elapsed, without any explicit tick.
    pub fn health(&self, now: Instant) -> (h: Health)
        ensures
            h == self@.health(now),
    {
        match self.opened_at {
            None => Health::Healthy,
            Some(opened) => {
                let waited = now.saturating_duration_since(opened);
                if waited.is_shorter_than(&self.policy.cooldown) {
                    Health::Unhealthy
                } else {
                    Health::Recovering
                }
            },
        }
    }

    /// Returns `true` if this endpoint may serve ordinary traffic.
    pub fn is_available(&self, now: Instant) -> (r: bool)
        ensures
            r == (self@.health(now) is Healthy),
    {
        self.health(now).is_available()
    }

    /// Returns `true` if this endpoint should receive a recovery probe.
    pub fn accepts_probe(&self, now: Instant) -> (r: bool)
        ensures
            r == (self@.health(now) is Recovering),
    {
        match self.health(now) {
            Health::Recovering => true,
            _ => false,
        }
    }

    /// Records a successful request.
    ///
    /// It counts toward recovery where the endpoint is due for a probe: a straggler
    /// that succeeds before the cooldown has elapsed brings nothing back.
    pub fn record_success(&mut self, now: Instant)
        requires
            old(self)@.can_count(),
        ensures
            final(self)@ == old(self)@.after_success(now),
    {
        let recovering = self.accepts_probe(now);
        self.total_successes = self.total_successes + 1;
        self.consecutive_failures = 0;
        if recovering {
            self.consecutive_successes = self.consecutive_successes + 1;
            if self.consecutive_successes >= self.policy.success_threshold {
                self.opened_at = None;
                self.consecutive_successes = 0;
            }
        }
    }

    /// Records a failed request.
    pub fn record_failure(&mut self, now: Instant)
        requires
            old(self)@.can_count(),
        ensures
            final(self)@ == old(self)@.after_failure(now),
    {
        self.total_failures = self.total_failures + 1;
        self.consecutive_successes = 0;
        self.consecutive_failures = self.consecutive_failures + 1;
        if self.opened_at.is_some() {
            self.opened_at = Some(now);
            return;
        }
        if self.consecutive_failures >= self.policy.failure_threshold {
            self.opened_at = Some(now);
            self.withdrawals = self.withdrawals + 1;
        }
    }

    /// Returns the total successful requests observed.
    pub fn total_successes(&self) -> (n: u64)
        ensures
            n == self@.total_successes,
    {
        self.total_successes
    }

    /// Returns the total failed requests observed.
    pub fn total_failures(&self) -> (n: u64)
        ensures
            n == self@.total_failures,
    {
        self.total_failures
    }

    /// Returns how many times this endpoint has been withdrawn.
    pub fn withdrawals(&self) -> (n: u64)
        ensures
            n == self@.withdrawals,
    {
        self.withdrawals
    }

    /// Returns the fraction of requests that succeeded.
    ///
    /// It is one before any request, so that an untried endpoint is not
    /// penalized against tried ones.
    pub fn success_ratio(&self) -> (r: Ratio)
        requires
            self@.total_successes + self@.total_failures <= u64::MAX,
        ensures
            r == success_share(self@),
    {
        let total: u64 = self.total_successes + self.total_failures;
        if total == 0 {
            Ratio::new(1, 1)
        } else {
            Ratio::new(self.total_successes, total)
        }
    }

    /// Restores the endpoint to full health, discarding failure history.
    pub fn reset(&mut self)
        ensures
            final(self)@ == old(self)@.restored(),
    {
        self.consecutive_failures = 0;
        self.consecutive_successes = 0;
        self.opened_at = None;
    }
}

/// The fraction of requests that succeeded, or all of none.
pub open spec fn success_share(s: HealthState) -> Ratio {
    if s.total_successes + s.total_failures == 0 {
        Ratio { numerator: 1, denominator: 1 }
    } else {
        Ratio {
            numerator: s.total_successes,
            denominator: (s.total_successes + s.total_failures) as u64,
        }
    }
}

/// When an endpoint is what: healthy as long as its circuit is closed, and once it
/// is open unhealthy until the cooldown has passed since, and recovering from then
/// on.
pub proof fn health_follows_the_circuit(s: HealthState, now: Instant)
    ensures
        s.health(now) is Healthy <==> s.opened_at is None,
        s.opened_at matches Some(opened) ==> opened.nanos() <= now.nanos() && now.nanos()
            - opened.nanos() <= time::MAX_NANOS ==> (s.health(now) is Recovering <==> now.nanos()
            >= opened.nanos() + s.policy.cooldown.nanos()),
{
}

/// What a success does: it is counted and ends the streak of failures. It counts
/// toward recovery only where a probe is due, and closes the circuit with the last
/// one that the threshold asks for.
pub proof fn one_success_is_counted(s: HealthState, now: Instant)
    requires
        s.can_count(),
    ensures
        ({
            let after = s.after_success(now);
            let probing = s.health(now) is Recovering;
            let closes = probing && s.successes + 1 >= s.policy.success_threshold;
            &&& after.total_successes == s.total_successes + 1
            &&& after.total_failures == s.total_failures && after.withdrawals == s.withdrawals
            &&& after.failures == 0 && after.policy == s.policy
            &&& after.opened_at == if closes {
                None
            } else {
                s.opened_at
            }
            &&& after.successes == if closes {
                0int
            } else if probing {
                s.successes + 1
            } else {
                s.successes as int
            }
        }),
{
}

/// What a failure does: it is counted, lengthens the streak and ends the count of
/// successes. It opens the circuit, which counts as a withdrawal, with the last one
/// that the threshold asks for; where the circuit is open already, the cooldown
/// starts over.
pub proof fn one_failure_is_counted(s: HealthState, now: Instant)
    requires
        s.can_count(),
    ensures
        ({
            let after = s.after_failure(now);
            let opens = s.opened_at is None && s.failures + 1 >= s.policy.failure_threshold;
            &&& after.total_failures == s.total_failures + 1
            &&& after.total_successes == s.total_successes
            &&& after.failures == s.failures + 1 && after.successes == 0
            &&& after.policy == s.policy
            &&& after.opened_at == if opens || s.opened_at is Some {
                Some(now)
            } else {
                None
            }
            &&& after.withdrawals == s.withdrawals + if opens {
                1int
            } else {
                0
            }
        }),
{
}

/// Restoring closes the circuit and forgets the streaks, and leaves what was counted
/// in total. The share of successes is of all requests, and whole before any.
pub proof fn restoring_keeps_the_totals(s: HealthState)
    requires
        s.total_successes + s.total_failures <= u64::MAX,
    ensures
        s.restored().opened_at is None,
        s.restored().failures == 0 && s.restored().successes == 0,
        s.restored().total_successes == s.total_successes,
        s.restored().total_failures == s.total_failures,
        s.restored().withdrawals == s.withdrawals && s.restored().policy == s.policy,
        success_share(s).denominator > 0,
        s.total_successes + s.total_failures > 0 ==> success_share(s).numerator * (s.total_successes
            + s.total_failures) == s.total_successes * success_share(s).denominator,
        s.total_successes + s.total_failures == 0 ==> success_share(s).numerator == success_share(
            s,
        ).denominator,
{
    let t = s.total_successes + s.total_failures;
    assert(s.total_successes * t == t * s.total_successes) by (nonlinear_arith);
}

/// A threshold of nothing counts as one, any other as it is.
pub proof fn thresholds_count_from_one(n: u32)
    ensures
        at_least_one(n) >= 1,
        n >= 1 ==> at_least_one(n) == n,
        at_least_one(n) <= n + 1,
{
}

/// A new endpoint is healthy, and nothing is counted of it yet.
pub proof fn new_endpoints_are_healthy(policy: HealthPolicy, now: Instant)
    ensures
        ({
            let s = HealthState::fresh(policy);
            &&& s.health(now) is Healthy && s.opened_at is None
            &&& s.failures == 0 && s.successes == 0
            &&& s.total_failures == 0 && s.total_successes == 0 && s.withdrawals == 0
            &&& s.policy == policy
        }),
{
}

} // verus!
