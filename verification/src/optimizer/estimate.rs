//! Estimating network conditions from observed samples.
//!
//! Every adaptive decision downstream depends on knowing roughly what the
//! network is doing. The estimators turn noisy measurements into stable figures
//! worth acting on. Both are exponentially weighted averages: they need constant
//! memory, respond smoothly to change, and forget old conditions by themselves.

use crate::rate;
use crate::rate::Rate;
use crate::ratio::Ratio;
use crate::smoothing;
use crate::time::{Duration, MAX_NANOS};
use vstd::prelude::*;

verus! {

/// The lower bound on a retransmission timeout, in milliseconds.
///
/// Prevents a very fast local link from producing a timeout so short that
/// ordinary scheduling delay looks like packet loss.
pub const MIN_RETRANSMIT_MILLIS: u64 = 200;

/// The upper bound on a retransmission timeout, in milliseconds.
pub const MAX_RETRANSMIT_MILLIS: u64 = 60_000;

/// How many samples an estimate has to rest on to be trusted.
///
/// Acting on one or two samples is how an adaptive system oscillates.
pub const ENOUGH_SAMPLES: u64 = 4;

/// How many parts make one nanosecond of an averaged round-trip time.
pub const FRACTIONS: u128 = 0x100_0000;

/// An eighth, the share of the distance that a sample moves an average by.
pub open spec fn eighth() -> Ratio {
    Ratio { numerator: 1, denominator: 8 }
}

/// A quarter, the share by which the variation of round-trip times moves.
pub open spec fn quarter() -> Ratio {
    Ratio { numerator: 1, denominator: 4 }
}

/// The default smoothing factor for bandwidth samples.
///
/// It takes roughly eight samples to converge, which is quick enough to follow a
/// genuine change and slow enough to ignore a single odd measurement.
pub fn default_smoothing() -> (r: Ratio)
    ensures
        r == eighth(),
        smoothing::is_share(r),
{
    Ratio::new(1, 8)
}

/// The lower bound on a retransmission timeout.
pub fn min_retransmit_timeout() -> (d: Duration)
    ensures
        d.nanos() == MIN_RETRANSMIT_MILLIS * 1_000_000,
{
    Duration::from_millis(MIN_RETRANSMIT_MILLIS)
}

/// The upper bound on a retransmission timeout.
pub fn max_retransmit_timeout() -> (d: Duration)
    ensures
        d.nanos() == MAX_RETRANSMIT_MILLIS * 1_000_000,
{
    Duration::from_millis(MAX_RETRANSMIT_MILLIS)
}

/// The length of a span, where there is one.
pub open spec fn nanos_of(d: Option<Duration>) -> Option<nat> {
    match d {
        Some(d) => Some(d.nanos()),
        None => None,
    }
}

/// What is known of the bandwidth of a link.
pub struct BandwidthState {
    /// The average rate, in the units of a rate.
    pub rate: Option<nat>,
    /// The highest rate, in the units of a rate.
    pub peak: nat,
    /// The share of the distance that a sample moves the average by.
    pub share: Ratio,
    /// The samples recorded.
    pub samples: nat,
}

impl BandwidthState {
    /// Nothing is known yet.
    pub open spec fn initial(share: Ratio) -> BandwidthState {
        BandwidthState { rate: None, peak: 0, share, samples: 0 }
    }

    /// `bytes` more were delivered in `nanos` nanoseconds. Empty intervals and
    /// empty deliveries are ignored.
    pub open spec fn after(self, bytes: nat, nanos: nat) -> BandwidthState {
        let sample = rate::rate_of(bytes, nanos);
        if bytes == 0 || nanos == 0 {
            self
        } else {
            BandwidthState {
                rate: Some(smoothing::averaged(self.rate, sample, self.share)),
                peak: if sample > self.peak {
                    sample
                } else {
                    self.peak
                },
                share: self.share,
                samples: self.samples + 1,
            }
        }
    }

    /// Enough samples exist to trust the estimate.
    pub open spec fn confident(self) -> bool {
        self.samples >= ENOUGH_SAMPLES
    }
}

/// Estimates available bandwidth from delivery samples.
#[derive(Debug, Clone, Copy, PartialEq, Eq, Structural)]
pub struct BandwidthEstimator {
    smoothed: Option<Rate>,
    peak: Rate,
    smoothing: Ratio,
    samples: u64,
}

impl View for BandwidthEstimator {
    type V = BandwidthState;

    closed spec fn view(&self) -> BandwidthState {
        BandwidthState {
            rate: rate::units_of(self.smoothed),
            peak: self.peak@,
            share: self.smoothing,
            samples: self.samples as nat,
        }
    }
}

impl BandwidthEstimator {
    #[verifier::type_invariant]
    spec fn smooths(self) -> bool {
        smoothing::is_share(self.smoothing)
    }

    /// Creates an estimator with the default smoothing factor.
    pub fn new() -> (e: BandwidthEstimator)
        ensures
            e@ == BandwidthState::initial(eighth()),
    {
        BandwidthEstimator {
            smoothed: None,
            peak: Rate::zero(),
            smoothing: default_smoothing(),
            samples: 0,
        }
    }

    /// Creates an estimator with a specific smoothing factor, at least a
    /// hundredth and at most one.
    ///
    /// A factor of one follows the latest sample exactly; values near zero barely
    /// move at all.
    pub fn with_smoothing(smoothing: Ratio) -> (e: BandwidthEstimator)
        requires
            smoothing.wf(),
        ensures
            e@ == BandwidthState::initial(smoothing::effective(smoothing)),
    {
        BandwidthEstimator {
            smoothed: None,
            peak: Rate::zero(),
            smoothing: smoothing::within_bounds(smoothing),
            samples: 0,
        }
    }

    /// Records a delivery of `bytes` taking `elapsed`.
    ///
    /// Zero-length intervals are ignored rather than treated as infinite
    /// bandwidth, which would poison the estimate permanently.
    pub fn sample(&mut self, bytes: u64, elapsed: Duration)
        requires
            old(self)@.samples < u64::MAX,
        ensures
            final(self)@ == old(self)@.after(bytes as nat, elapsed.nanos()),
    {
        if elapsed.is_zero() || bytes == 0 {
            return;
        }
        proof {
            use_type_invariant(&*self);
        }
        let rate = Rate::of(bytes, elapsed);
        self.samples = self.samples + 1;
        self.peak = self.peak.faster(rate);
        // The first sample is the estimate; averaging it against nothing would
        // start every connection at zero and climb slowly.
        self.smoothed = Some(Rate::averaged(self.smoothed, rate, self.smoothing));
    }

    /// Returns the smoothed estimate, if any sample exists.
    pub fn bytes_per_second(&self) -> (r: Option<Rate>)
        ensures
            rate::units_of(r) == self@.rate,
    {
        self.smoothed
    }

    /// Returns the highest rate ever observed.
    ///
    /// Useful as an optimistic ceiling: the link demonstrably reached this once.
    pub fn peak_bytes_per_second(&self) -> (r: Rate)
        ensures
            r@ == self@.peak,
    {
        self.peak
    }

    /// Returns how many samples have been recorded.
    pub fn samples(&self) -> (n: u64)
        ensures
            n == self@.samples,
    {
        self.samples
    }

    /// Returns `true` once enough samples exist to trust the estimate.
    pub fn is_confident(&self) -> (r: bool)
        ensures
            r == self@.confident(),
    {
        self.samples >= ENOUGH_SAMPLES
    }

    /// Discards all history, as after a route change or reconnection.
    pub fn reset(&mut self)
        ensures
            final(self)@ == BandwidthState::initial(old(self)@.share),
    {
        proof {
            use_type_invariant(&*self);
        }
        self.smoothed = None;
        self.peak = Rate::zero();
        self.samples = 0;
    }
}

impl Default for BandwidthEstimator {
    fn default() -> (e: BandwidthEstimator)
        ensures
            e@ == BandwidthState::initial(eighth()),
    {
        BandwidthEstimator::new()
    }
}

/// The shorter of two lengths, of which the first need not be known.
pub open spec fn shortest_with(known: Option<nat>, next: nat) -> nat {
    match known {
        Some(n) => if n <= next {
            n
        } else {
            next
        },
        None => next,
    }
}

/// Returns the shorter of two spans, of which the first need not be known.
pub fn shorter_of(known: Option<Duration>, next: Duration) -> (d: Duration)
    ensures
        d.nanos() == shortest_with(nanos_of(known), next.nanos()),
{
    match known {
        Some(known) => {
            if next.is_shorter_than(&known) {
                next
            } else {
                known
            }
        },
        None => next,
    }
}

/// The nanoseconds of a time that is counted in parts, to the nearest.
pub open spec fn rounded(parts: nat) -> nat {
    (parts + FRACTIONS as nat / 2) / FRACTIONS as nat
}

/// Returns a time that is counted in parts, to the nearest nanosecond.
pub fn whole_nanos(parts: u128) -> (d: Duration)
    requires
        parts <= MAX_NANOS * FRACTIONS,
    ensures
        d.nanos() == rounded(parts as nat),
{
    Duration::of_nanos((parts + FRACTIONS / 2) / FRACTIONS)
}

/// Returns the parts of a span.
pub fn parts_of(span: Duration) -> (parts: u128)
    ensures
        parts == span.nanos() * FRACTIONS,
        parts <= MAX_NANOS * FRACTIONS,
{
    span.as_nanos() * FRACTIONS
}

/// The timeout in nanoseconds: what the round-trip times suggest, kept within
/// the bounds, and the lower bound where nothing is measured.
pub open spec fn timeout_within_bounds(suggested: Option<nat>) -> nat {
    let low = (MIN_RETRANSMIT_MILLIS * 1_000_000) as nat;
    let high = (MAX_RETRANSMIT_MILLIS * 1_000_000) as nat;
    match suggested {
        None => low,
        Some(n) => if n < low {
            low
        } else if n > high {
            high
        } else {
            n
        },
    }
}

/// What is known of the round trips of a link.
pub struct RttState {
    /// The average round-trip time, in parts of a nanosecond.
    pub average: Option<nat>,
    /// The mean deviation of the round-trip times, in parts of a nanosecond.
    pub variation: nat,
    /// The shortest round trip, in nanoseconds.
    pub floor: Option<nat>,
    /// The samples recorded.
    pub samples: nat,
}

impl RttState {
    /// Nothing is known yet.
    pub open spec fn initial() -> RttState {
        RttState { average: None, variation: 0, floor: None, samples: 0 }
    }

    /// One more round trip took `nanos` nanoseconds. An empty one is ignored.
    ///
    /// The first seeds both terms. Later ones move the average by an eighth, and
    /// the variation by a quarter toward the distance from the average so far.
    pub open spec fn after(self, nanos: nat) -> RttState {
        let sample = nanos * FRACTIONS as nat;
        if nanos == 0 {
            self
        } else {
            RttState {
                average: Some(smoothing::averaged(self.average, sample, eighth())),
                variation: match self.average {
                    None => sample / 2,
                    Some(current) => smoothing::moved(
                        self.variation,
                        smoothing::gap(sample, current),
                        quarter(),
                    ),
                },
                floor: Some(shortest_with(self.floor, nanos)),
                samples: self.samples + 1,
            }
        }
    }

    /// The average round-trip time, to the nearest nanosecond.
    pub open spec fn average_nanos(self) -> Option<nat> {
        match self.average {
            Some(parts) => Some(rounded(parts)),
            None => None,
        }
    }

    /// The retransmission timeout in nanoseconds: the average and four times the
    /// variation, kept within the bounds.
    pub open spec fn timeout(self) -> nat {
        timeout_within_bounds(
            match self.average {
                Some(average) => Some(rounded(average + 4 * self.variation)),
                None => None,
            },
        )
    }

    /// Enough samples exist to trust the estimate.
    pub open spec fn confident(self) -> bool {
        self.samples >= ENOUGH_SAMPLES
    }
}

/// Estimates round-trip time and a retransmission timeout.
///
/// It follows both an average round-trip time and its variation, and derives the
/// timeout from both. The average alone would give a timeout that fires
/// constantly on a jittery link.
#[derive(Debug, Clone, Copy, PartialEq, Eq, Structural)]
pub struct RttEstimator {
    smoothed: Option<u128>,
    variation: u128,
    min_rtt: Option<Duration>,
    samples: u64,
}

impl View for RttEstimator {
    type V = RttState;

    closed spec fn view(&self) -> RttState {
        RttState {
            average: match self.smoothed {
                Some(parts) => Some(parts as nat),
                None => None,
            },
            variation: self.variation as nat,
            floor: nanos_of(self.min_rtt),
            samples: self.samples as nat,
        }
    }
}

impl RttEstimator {
    #[verifier::type_invariant]
    spec fn within_range(self) -> bool {
        &&& self.smoothed matches Some(parts) ==> parts <= MAX_NANOS * FRACTIONS
        &&& self.variation <= MAX_NANOS * FRACTIONS
    }

    /// Creates an estimator with no samples.
    pub fn new() -> (e: RttEstimator)
        ensures
            e@ == RttState::initial(),
    {
        RttEstimator { smoothed: None, variation: 0, min_rtt: None, samples: 0 }
    }

    /// Records a round-trip time measurement.
    pub fn sample(&mut self, rtt: Duration)
        requires
            old(self)@.samples < u64::MAX,
        ensures
            final(self)@ == old(self)@.after(rtt.nanos()),
    {
        if rtt.is_zero() {
            return;
        }
        proof {
            use_type_invariant(&*self);
        }
        let sample: u128 = parts_of(rtt);
        self.samples = self.samples + 1;
        self.min_rtt = Some(shorter_of(self.min_rtt, rtt));
        match self.smoothed {
            Some(current) => {
                let difference: u128 = if sample >= current {
                    sample - current
                } else {
                    current - sample
                };
                proof {
                    smoothing::averages_stay_within_their_samples(
                        self.variation as nat,
                        difference as nat,
                        quarter(),
                    );
                    smoothing::averages_stay_within_their_samples(
                        current as nat,
                        sample as nat,
                        eighth(),
                    );
                }
                self.variation = smoothing::average(
                    Some(self.variation),
                    difference,
                    Ratio::new(1, 4),
                );
                self.smoothed = Some(smoothing::average(Some(current), sample, Ratio::new(1, 8)));
            },
            None => {
                self.smoothed = Some(sample);
                self.variation = sample / 2;
            },
        }
    }

    /// Returns the smoothed round-trip time.
    pub fn smoothed_rtt(&self) -> (d: Option<Duration>)
        ensures
            nanos_of(d) == self@.average_nanos(),
    {
        proof {
            use_type_invariant(self);
        }
        match self.smoothed {
            Some(parts) => Some(whole_nanos(parts)),
            None => None,
        }
    }

    /// Returns the lowest round-trip time seen.
    ///
    /// The minimum approximates the latency of the path without queueing, which
    /// is what congestion control compares against to detect buffer buildup.
    pub fn min_rtt(&self) -> (d: Option<Duration>)
        ensures
            nanos_of(d) == self@.floor,
    {
        self.min_rtt
    }

    /// Returns the current variation estimate.
    pub fn variation(&self) -> (d: Duration)
        ensures
            d.nanos() == rounded(self@.variation),
    {
        proof {
            use_type_invariant(self);
        }
        whole_nanos(self.variation)
    }

    /// Returns how many samples have been recorded.
    pub fn samples(&self) -> (n: u64)
        ensures
            n == self@.samples,
    {
        self.samples
    }

    /// Returns the retransmission timeout: the smoothed round-trip time plus four
    /// variations, kept within the bounds, and the lower bound before any sample
    /// exists.
    pub fn retransmit_timeout(&self) -> (d: Duration)
        ensures
            d.nanos() == self@.timeout(),
    {
        proof {
            use_type_invariant(self);
        }
        let low: u128 = 1_000_000 * (MIN_RETRANSMIT_MILLIS as u128);
        let high: u128 = 1_000_000 * (MAX_RETRANSMIT_MILLIS as u128);
        match self.smoothed {
            None => min_retransmit_timeout(),
            Some(smoothed) => {
                let timeout: u128 = (smoothed + 4 * self.variation + FRACTIONS / 2) / FRACTIONS;
                if timeout < low {
                    min_retransmit_timeout()
                } else if timeout > high {
                    max_retransmit_timeout()
                } else {
                    Duration::of_nanos(timeout)
                }
            },
        }
    }

    /// Discards all history.
    pub fn reset(&mut self)
        ensures
            final(self)@ == RttState::initial(),
    {
        proof {
            use_type_invariant(&*self);
        }
        self.smoothed = None;
        self.variation = 0;
        self.min_rtt = None;
        self.samples = 0;
    }
}

impl Default for RttEstimator {
    fn default() -> (e: RttEstimator)
        ensures
            e@ == RttState::initial(),
    {
        RttEstimator::new()
    }
}

/// A timeout stays within its bounds, and follows the round-trip times: a longer
/// average or a greater variation never gives a shorter one.
pub proof fn timeouts_are_bounded_and_follow(steady: RttState, shaky: RttState)
    requires
        steady.average matches Some(quick) && (shaky.average matches Some(slow) && quick <= slow),
        steady.variation <= shaky.variation,
    ensures
        steady.timeout() <= shaky.timeout(),
        RttState::initial().timeout() <= steady.timeout(),
        MIN_RETRANSMIT_MILLIS * 1_000_000 <= steady.timeout() <= MAX_RETRANSMIT_MILLIS * 1_000_000,
{
}

/// The shortest round trip is never exceeded by the average.
pub proof fn averages_stay_above_the_floor(s: RttState, nanos: nat)
    requires
        s.average is None <==> s.floor is None,
        s.average matches Some(average) ==> s.floor->0 * FRACTIONS <= average,
        nanos > 0,
    ensures
        s.after(nanos).floor->0 * FRACTIONS <= s.after(nanos).average->0,
        s.after(nanos).floor->0 <= nanos,
{
    let sample = nanos * FRACTIONS as nat;
    if let Some(current) = s.average {
        smoothing::averages_stay_within_their_samples(current, sample, eighth());
    }
}

/// The first sample is the estimate, and a steady link keeps it.
pub proof fn steady_links_keep_their_estimates(share: Ratio, bytes: nat, nanos: nat)
    requires
        smoothing::is_share(share),
        bytes > 0,
        nanos > 0,
    ensures
        ({
            let once = BandwidthState::initial(share).after(bytes, nanos);
            once.rate == Some(rate::rate_of(bytes, nanos)) && once.after(bytes, nanos).rate
                == once.rate && once.after(bytes, nanos).peak == once.peak
        }),
        ({
            let once = RttState::initial().after(nanos);
            once.average_nanos() == Some(nanos) && once.after(nanos).average == once.average
                && once.after(nanos).variation <= once.variation
        }),
{
    let sample = rate::rate_of(bytes, nanos);
    smoothing::averages_stay_within_their_samples(sample, sample, share);
    let trip = nanos * FRACTIONS as nat;
    smoothing::averages_stay_within_their_samples(trip, trip, eighth());
    smoothing::averages_stay_within_their_samples(trip / 2, 0, quarter());
}

/// The bandwidth after these deliveries, each of so many bytes in so many
/// nanoseconds.
pub open spec fn delivered_all(s: BandwidthState, deliveries: Seq<(nat, nat)>) -> BandwidthState
    decreases deliveries.len(),
{
    if deliveries.len() == 0 {
        s
    } else {
        delivered_all(s, deliveries.drop_last()).after(deliveries.last().0, deliveries.last().1)
    }
}

/// The round trips after these, of so many nanoseconds each.
pub open spec fn measured_all(s: RttState, rtts: Seq<nat>) -> RttState
    decreases rtts.len(),
{
    if rtts.len() == 0 {
        s
    } else {
        measured_all(s, rtts.drop_last()).after(rtts.last())
    }
}

/// What one delivery does: the estimate becomes its rate if it is the first, and
/// moves toward its rate by the share otherwise; the peak rises to its rate if that
/// is higher. A delivery of nothing, or in no time, does nothing.
pub proof fn one_delivery_moves_the_estimate(s: BandwidthState, bytes: nat, nanos: nat)
    requires
        smoothing::is_share(s.share),
    ensures
        bytes == 0 || nanos == 0 ==> s.after(bytes, nanos) == s,
        bytes > 0 && nanos > 0 ==> ({
            let after = s.after(bytes, nanos);
            let sample = rate::rate_of(bytes, nanos);
            let (n, d) = (s.share.numerator, s.share.denominator);
            &&& after.rate is Some
            &&& s.rate is None ==> after.rate->0 == sample
            &&& s.rate matches Some(old) ==> -d < d * after.rate->0 - ((d - n) * old + n * sample)
                < d
            &&& after.peak >= s.peak && after.peak >= sample
            &&& after.peak == s.peak || after.peak == sample
            &&& after.samples == s.samples + 1
            &&& after.share == s.share
        }),
{
    if let Some(old) = s.rate {
        smoothing::averages_weigh_old_against_new(old, rate::rate_of(bytes, nanos), s.share);
    }
}

/// The peak is the highest rate of any delivery since the estimator was new, and the
/// estimate lies between the lowest and the highest.
pub proof fn the_peak_is_the_highest_rate(s: BandwidthState, deliveries: Seq<(nat, nat)>)
    requires
        smoothing::is_share(s.share),
        s.rate is None,
        s.peak == 0,
    ensures
        ({
            let after = delivered_all(s, deliveries);
            &&& after.share == s.share
            &&& forall|i: int|
                0 <= i < deliveries.len() && (#[trigger] deliveries[i]).0 > 0 && deliveries[i].1 > 0
                    ==> rate::rate_of(deliveries[i].0, deliveries[i].1) <= after.peak
            &&& after.peak == 0 || exists|i: int|
                0 <= i < deliveries.len() && rate::rate_of(
                    (#[trigger] deliveries[i]).0,
                    deliveries[i].1,
                ) == after.peak
            &&& after.rate matches Some(rate) ==> rate <= after.peak
        }),
    decreases deliveries.len(),
{
    if deliveries.len() > 0 {
        let rest = deliveries.drop_last();
        let last = deliveries.last();
        the_peak_is_the_highest_rate(s, rest);
        let before = delivered_all(s, rest);
        let after = delivered_all(s, deliveries);
        assert forall|i: int|
            0 <= i < deliveries.len() && (#[trigger] deliveries[i]).0 > 0 && deliveries[i].1
                > 0 implies rate::rate_of(deliveries[i].0, deliveries[i].1) <= after.peak by {
            if i < rest.len() {
                assert(rest[i] == deliveries[i]);
            }
        }
        if after.peak == before.peak && after.peak != 0 {
            let i = choose|i: int|
                0 <= i < rest.len() && rate::rate_of((#[trigger] rest[i]).0, rest[i].1)
                    == before.peak;
            assert(deliveries[i] == rest[i]);
        } else if after.peak != 0 {
            assert(deliveries[deliveries.len() - 1] == last);
        }
        if let Some(old) = before.rate {
            smoothing::averages_stay_within_their_samples(
                old,
                rate::rate_of(last.0, last.1),
                s.share,
            );
        }
    }
}

/// What one round trip does: the first is the average, with half of it for
/// variation; a later one moves the average by an eighth of the way, and the
/// variation by a quarter of the way to how far it lay from the average so far. The
/// floor falls to it if it is shorter. An empty round trip does nothing.
pub proof fn one_round_trip_moves_the_estimate(s: RttState, nanos: nat)
    ensures
        s.after(0) == s,
        nanos > 0 ==> ({
            let after = s.after(nanos);
            let trip = nanos * FRACTIONS;
            &&& after.average is Some
            &&& s.average is None ==> after.average->0 == trip && after.variation == trip / 2
            &&& s.average matches Some(old) ==> {
                let off = if trip >= old {
                    trip - old
                } else {
                    old - trip
                };
                &&& -8 < 8 * after.average->0 - (7 * old + trip) < 8
                &&& -4 < 4 * after.variation - (3 * s.variation + off) < 4
            }
            &&& after.floor matches Some(f) && f <= nanos && (f == nanos || s.floor == Some(f))
            &&& s.floor matches Some(old) ==> after.floor->0 <= old
            &&& after.samples == s.samples + 1
        }),
{
    if let Some(old) = s.average {
        let trip = nanos * FRACTIONS as nat;
        smoothing::averages_weigh_old_against_new(old, trip, eighth());
        smoothing::averages_weigh_old_against_new(
            s.variation,
            smoothing::gap(trip, old),
            quarter(),
        );
    }
}

/// The floor is the shortest of the round trips since the estimator was new.
pub proof fn the_shortest_round_trip_is_kept(s: RttState, rtts: Seq<nat>)
    requires
        s.floor is None,
    ensures
        ({
            let floor = measured_all(s, rtts).floor;
            &&& forall|i: int|
                0 <= i < rtts.len() && #[trigger] rtts[i] > 0 ==> floor is Some && floor->0
                    <= rtts[i]
            &&& floor is Some ==> floor->0 > 0 && rtts.contains(floor->0)
        }),
    decreases rtts.len(),
{
    if rtts.len() > 0 {
        let rest = rtts.drop_last();
        the_shortest_round_trip_is_kept(s, rest);
        let known = measured_all(s, rest).floor;
        let floor = measured_all(s, rtts).floor;
        assert forall|i: int| 0 <= i < rtts.len() && #[trigger] rtts[i] > 0 implies floor is Some
            && floor->0 <= rtts[i] by {
            if i < rest.len() {
                assert(rest[i] == rtts[i]);
            }
        }
        if floor is Some {
            if floor == known {
                let i = rest.index_of(floor->0);
                assert(rtts[i] == floor->0);
            } else {
                assert(rtts[rtts.len() - 1] == floor->0);
            }
        }
    }
}

/// The timeout is the average and four times the variation, to the nearest
/// nanosecond, wherever that lies from 200 milliseconds to a minute, and the nearer
/// of these two where it does not. Before any round trip it is the shorter one.
pub proof fn timeouts_are_average_and_variation(s: RttState)
    ensures
        s.average is None ==> s.timeout() == 200_000_000,
        s.average matches Some(average) ==> {
            let wanted = average + 4 * s.variation;
            let (low, high) = (200_000_000 * FRACTIONS, 60_000_000_000 * FRACTIONS);
            &&& wanted <= low ==> s.timeout() == 200_000_000
            &&& wanted >= high ==> s.timeout() == 60_000_000_000
            &&& low <= wanted <= high ==> -FRACTIONS <= 2 * (s.timeout() * FRACTIONS - wanted)
                <= FRACTIONS
        },
{
}

/// An average in whole nanoseconds is off by half of one at most, and estimates are
/// trusted from four samples on.
pub proof fn estimates_are_rounded_and_trusted(s: RttState, b: BandwidthState)
    ensures
        s.average is None <==> s.average_nanos() is None,
        s.average matches Some(parts) ==> -FRACTIONS <= 2 * (s.average_nanos()->0 * FRACTIONS
            - parts) <= FRACTIONS,
        s.confident() <==> s.samples >= 4,
        b.confident() <==> b.samples >= 4,
{
}

/// An estimate starts without samples, and moves by the share it is given. Unless told
/// otherwise, a rate moves by an eighth of the way, and the variation of round trips by
/// a quarter.
pub proof fn estimates_start_from_nothing(share: Ratio)
    ensures
        ({
            let b = BandwidthState::initial(share);
            &&& b.rate is None && b.peak == 0 && b.samples == 0 && b.share == share
        }),
        ({
            let r = RttState::initial();
            &&& r.average is None && r.variation == 0 && r.floor is None && r.samples == 0
        }),
        8 * eighth().numerator == eighth().denominator && eighth().numerator > 0,
        4 * quarter().numerator == quarter().denominator && quarter().numerator > 0,
{
}

} // verus!
