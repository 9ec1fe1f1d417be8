//! The network optimizer: measurement in, a complete plan out.
//!
//! [`NetworkOptimizer`] observes bandwidth, latency and loss, grades the link,
//! and produces an [`OptimizationPlan`] that covers payload size, compression,
//! caching, delta synchronization, retry timing, and how much to keep in flight.
//! Nothing here sends, compresses or caches anything: it reads measurements and
//! returns values.

use crate::optimizer::advisor;
use crate::optimizer::estimate;
use crate::optimizer::estimate::{BandwidthEstimator, BandwidthState, RttEstimator, RttState};
use crate::optimizer::estimate::ENOUGH_SAMPLES;
use crate::optimizer::quality;
use crate::optimizer::quality::{LossEstimator, LossState, NetworkQuality};
use crate::optimizer::strategy::{CacheStrategy, CompressionStrategy, DeltaSyncStrategy};
use crate::rate;
use crate::rate::Rate;
use crate::ratio::Ratio;
use crate::time::Duration;
use vstd::prelude::*;

verus! {

/// A complete set of adaptive decisions for the current conditions.
#[derive(Debug, Clone, Copy, PartialEq, Eq, Structural)]
#[non_exhaustive]
pub struct OptimizationPlan {
    /// The graded network quality the plan was derived from.
    pub quality: NetworkQuality,
    /// The payload size to aim for, in bytes.
    pub payload_size: usize,
    /// How to compress outbound payloads.
    pub compression: CompressionStrategy,
    /// How to use the local cache.
    pub cache: CacheStrategy,
    /// Whether to send differences rather than whole payloads.
    pub delta_sync: DeltaSyncStrategy,
    /// How long to wait before treating a send as lost.
    pub retry_timeout: Duration,
    /// How many bytes to keep in flight before waiting for acknowledgement.
    pub in_flight_bytes: u64,
    /// Whether the plan rests on enough measurement to be trusted.
    ///
    /// When `false`, these are defaults rather than conclusions. Acting hard on
    /// one or two samples is how an adaptive system starts oscillating.
    pub confident: bool,
}

impl OptimizationPlan {
    /// Returns `true` if the plan calls for conserving bandwidth.
    pub fn conserves_bandwidth(&self) -> (r: bool)
        ensures
            r == (self.compression.enabled || self.delta_sync.enabled),
    {
        self.compression.enabled || self.delta_sync.enabled
    }
}

/// A snapshot of optimizer activity.
#[derive(Debug, Clone, Copy, PartialEq, Eq, Structural)]
#[non_exhaustive]
pub struct OptimizationMetrics {
    /// Delivery samples recorded.
    pub delivery_samples: u64,
    /// Round-trip time samples recorded.
    pub rtt_samples: u64,
    /// Loss observations recorded.
    pub loss_samples: u64,
    /// Times the graded quality changed.
    ///
    /// Frequent changes suggest an unstable link, or thresholds too close
    /// together for the traffic being measured.
    pub quality_changes: u64,
    /// The current graded quality.
    pub quality: NetworkQuality,
    /// The worst quality observed.
    pub worst_quality: NetworkQuality,
    /// The current bandwidth estimate, if any.
    pub bytes_per_second: Option<Rate>,
    /// The current smoothed round-trip time, if any.
    pub smoothed_rtt: Option<Duration>,
    /// The current smoothed loss ratio, if any.
    pub loss_ratio: Option<Ratio>,
    /// Whether the estimates rest on enough samples to be trusted.
    pub confident: bool,
}

impl OptimizationMetrics {
    /// Returns the total samples of every kind.
    pub fn total_samples(&self) -> (n: u64)
        requires
            self.delivery_samples + self.rtt_samples + self.loss_samples <= u64::MAX,
        ensures
            n == self.delivery_samples + self.rtt_samples + self.loss_samples,
    {
        self.delivery_samples + self.rtt_samples + self.loss_samples
    }

    /// Returns `true` if the link is currently graded as degraded.
    pub fn is_degraded(&self) -> (r: bool)
        ensures
            r == self.quality.degraded(),
    {
        self.quality.is_degraded()
    }

    /// Returns `true` if conditions have ever been worse than they are now.
    ///
    /// Distinguishes a link recovering from one that was always this bad, which
    /// matters when deciding whether to keep conserving.
    pub fn has_recovered(&self) -> (r: bool)
        ensures
            r == (self.quality.rank() > self.worst_quality.rank()),
    {
        self.quality.score() > self.worst_quality.score()
    }
}

impl Default for OptimizationMetrics {
    fn default() -> (m: OptimizationMetrics)
        ensures
            m == (OptimizationMetrics {
                delivery_samples: 0,
                rtt_samples: 0,
                loss_samples: 0,
                quality_changes: 0,
                quality: NetworkQuality::Good,
                worst_quality: NetworkQuality::Good,
                bytes_per_second: None,
                smoothed_rtt: None,
                loss_ratio: None,
                confident: false,
            }),
    {
        OptimizationMetrics {
            delivery_samples: 0,
            rtt_samples: 0,
            loss_samples: 0,
            quality_changes: 0,
            quality: NetworkQuality::Good,
            worst_quality: NetworkQuality::Good,
            bytes_per_second: None,
            smoothed_rtt: None,
            loss_ratio: None,
            confident: false,
        }
    }
}

/// What is known of a link.
pub struct NetworkState {
    /// Its bandwidth.
    pub bandwidth: BandwidthState,
    /// Its round trips.
    pub rtt: RttState,
    /// Its losses.
    pub loss: LossState,
    /// The current grade.
    pub quality: NetworkQuality,
    /// The worst grade.
    pub worst_quality: NetworkQuality,
    /// Delivery samples recorded.
    pub delivery_samples: nat,
    /// Round-trip time samples recorded.
    pub rtt_samples: nat,
    /// Loss observations recorded.
    pub loss_samples: nat,
    /// Times the grade changed.
    pub quality_changes: nat,
}

impl NetworkState {
    /// A link that nothing is known of is assumed to be workable.
    pub open spec fn initial() -> NetworkState {
        NetworkState {
            bandwidth: BandwidthState::initial(estimate::eighth()),
            rtt: RttState::initial(),
            loss: LossState::initial(estimate::eighth()),
            quality: NetworkQuality::Good,
            worst_quality: NetworkQuality::Excellent,
            delivery_samples: 0,
            rtt_samples: 0,
            loss_samples: 0,
            quality_changes: 0,
        }
    }

    /// The grades of the dimensions that were measured. An estimate of loss that
    /// rests on a few packets is noise: one loss in three packets is a ratio of
    /// 33% and means nothing.
    pub open spec fn grades(self) -> Seq<NetworkQuality> {
        let bandwidth = match self.bandwidth.rate {
            Some(units) => seq![quality::bandwidth_grade(rate::whole_bytes_of(units))],
            None => Seq::empty(),
        };
        let latency = match self.rtt.average_nanos() {
            Some(nanos) => seq![quality::rtt_grade(nanos)],
            None => Seq::empty(),
        };
        let loss = match self.loss.ratio {
            Some(parts) => if self.loss.confident() {
                seq![quality::loss_grade(parts, quality::LOSS_PARTS as nat)]
            } else {
                Seq::empty()
            },
            None => Seq::empty(),
        };
        bandwidth + latency + loss
    }

    /// The link graded `q`.
    pub open spec fn graded(self, q: NetworkQuality) -> NetworkState {
        NetworkState {
            quality: q,
            worst_quality: self.worst_quality.worse(q),
            quality_changes: if q != self.quality {
                self.quality_changes + 1
            } else {
                self.quality_changes
            },
            ..self
        }
    }

    /// The link graded by the worst dimension. Only dimensions that have been
    /// measured contribute: where there are none, the grade stays.
    pub open spec fn regraded(self) -> NetworkState {
        if self.grades().len() == 0 {
            self
        } else {
            self.graded(quality::worst(self.grades()))
        }
    }

    /// `bytes` were delivered in `nanos` nanoseconds.
    pub open spec fn after_delivery(self, bytes: nat, nanos: nat) -> NetworkState {
        (NetworkState {
            bandwidth: self.bandwidth.after(bytes, nanos),
            delivery_samples: self.delivery_samples + 1,
            ..self
        }).regraded()
    }

    /// A round trip took `nanos` nanoseconds.
    pub open spec fn after_rtt(self, nanos: nat) -> NetworkState {
        (NetworkState {
            rtt: self.rtt.after(nanos),
            rtt_samples: self.rtt_samples + 1,
            ..self
        }).regraded()
    }

    /// A batch of packets was sent, of which `lost` did not arrive.
    pub open spec fn after_loss(self, delivered: nat, lost: nat) -> NetworkState {
        (NetworkState {
            loss: self.loss.after(delivered, lost),
            loss_samples: self.loss_samples + 1,
            ..self
        }).regraded()
    }

    /// Another link: its measurements and grades are gone, what was recorded
    /// stays counted.
    pub open spec fn rerouted(self) -> NetworkState {
        NetworkState {
            bandwidth: BandwidthState::initial(self.bandwidth.share),
            rtt: RttState::initial(),
            loss: LossState::initial(self.loss.share),
            quality: NetworkQuality::Good,
            worst_quality: NetworkQuality::Excellent,
            ..self
        }
    }

    /// Bandwidth and round trips are measured often enough to be trusted. Loss is
    /// no part of this: a link that has simply not lost anything yet should not
    /// be treated as unmeasured forever.
    pub open spec fn confident(self) -> bool {
        self.bandwidth.confident() && self.rtt.confident()
    }

    /// Every sample that was recorded.
    pub open spec fn total_samples(self) -> nat {
        self.delivery_samples + self.rtt_samples + self.loss_samples
    }

    /// What keeps the link busy for one round trip, in bytes.
    pub open spec fn product(self) -> Option<nat> {
        advisor::delay_product(self.bandwidth, self.rtt)
    }
}

/// Observes network conditions and produces adaptive plans.
#[derive(Debug, Clone, Copy, PartialEq, Eq, Structural)]
pub struct NetworkOptimizer {
    bandwidth: BandwidthEstimator,
    rtt: RttEstimator,
    loss: LossEstimator,
    quality: NetworkQuality,
    worst_quality: NetworkQuality,
    delivery_samples: u64,
    rtt_samples: u64,
    loss_samples: u64,
    quality_changes: u64,
}

impl View for NetworkOptimizer {
    type V = NetworkState;

    closed spec fn view(&self) -> NetworkState {
        NetworkState {
            bandwidth: self.bandwidth@,
            rtt: self.rtt@,
            loss: self.loss@,
            quality: self.quality,
            worst_quality: self.worst_quality,
            delivery_samples: self.delivery_samples as nat,
            rtt_samples: self.rtt_samples as nat,
            loss_samples: self.loss_samples as nat,
            quality_changes: self.quality_changes as nat,
        }
    }
}

impl NetworkOptimizer {
    #[verifier::type_invariant]
    spec fn counts(self) -> bool {
        &&& self.bandwidth@.samples <= self.delivery_samples
        &&& self.rtt@.samples <= self.rtt_samples
        &&& self.quality_changes <= self.delivery_samples + self.rtt_samples + self.loss_samples
    }

    /// Creates an optimizer with no measurements.
    ///
    /// The link is assumed to be workable until measurement says otherwise.
    /// Starting pessimistic would compress hard and cache aggressively before
    /// there is any evidence that it helps.
    pub fn new() -> (o: NetworkOptimizer)
        ensures
            o@ == NetworkState::initial(),
    {
        NetworkOptimizer {
            bandwidth: BandwidthEstimator::new(),
            rtt: RttEstimator::new(),
            loss: LossEstimator::new(),
            quality: NetworkQuality::Good,
            worst_quality: NetworkQuality::Excellent,
            delivery_samples: 0,
            rtt_samples: 0,
            loss_samples: 0,
            quality_changes: 0,
        }
    }

    /// Records that `bytes` were delivered in `elapsed`.
    pub fn record_delivery(&mut self, bytes: u64, elapsed: Duration)
        requires
            old(self)@.total_samples() < u64::MAX,
        ensures
            final(self)@ == old(self)@.after_delivery(bytes as nat, elapsed.nanos()),
    {
        proof {
            use_type_invariant(&*self);
        }
        let mut bandwidth = self.bandwidth;
        bandwidth.sample(bytes, elapsed);
        self.delivery_samples = self.delivery_samples + 1;
        self.bandwidth = bandwidth;
        self.regrade();
    }

    /// Records a round-trip time measurement.
    pub fn record_rtt(&mut self, rtt: Duration)
        requires
            old(self)@.total_samples() < u64::MAX,
        ensures
            final(self)@ == old(self)@.after_rtt(rtt.nanos()),
    {
        proof {
            use_type_invariant(&*self);
        }
        let mut trips = self.rtt;
        trips.sample(rtt);
        self.rtt_samples = self.rtt_samples + 1;
        self.rtt = trips;
        self.regrade();
    }

    /// Records the outcome of a batch of packets.
    pub fn record_loss(&mut self, delivered: u64, lost: u64)
        requires
            old(self)@.total_samples() < u64::MAX,
            old(self)@.loss.delivered + old(self)@.loss.lost + delivered + lost <= u64::MAX,
        ensures
            final(self)@ == old(self)@.after_loss(delivered as nat, lost as nat),
    {
        proof {
            use_type_invariant(&*self);
        }
        let mut loss = self.loss;
        loss.sample(delivered, lost);
        self.loss_samples = self.loss_samples + 1;
        self.loss = loss;
        self.regrade();
    }

    /// Returns the bandwidth estimator.
    pub fn bandwidth(&self) -> (e: &BandwidthEstimator)
        ensures
            e@ == self@.bandwidth,
    {
        &self.bandwidth
    }

    /// Returns the round-trip time estimator.
    pub fn rtt(&self) -> (e: &RttEstimator)
        ensures
            e@ == self@.rtt,
    {
        &self.rtt
    }

    /// Returns the loss estimator.
    pub fn loss(&self) -> (e: &LossEstimator)
        ensures
            e@ == self@.loss,
    {
        &self.loss
    }

    /// Returns the current graded quality.
    pub fn quality(&self) -> (q: NetworkQuality)
        ensures
            q == self@.quality,
    {
        self.quality
    }

    /// Returns `true` once bandwidth and round trips have enough samples to be
    /// trusted.
    pub fn is_confident(&self) -> (r: bool)
        ensures
            r == self@.confident(),
    {
        self.bandwidth.is_confident() && self.rtt.samples() >= ENOUGH_SAMPLES
    }

    /// Returns a snapshot of optimizer activity.
    pub fn metrics(&self) -> (m: OptimizationMetrics)
        ensures
            m.delivery_samples == self@.delivery_samples,
            m.rtt_samples == self@.rtt_samples,
            m.loss_samples == self@.loss_samples,
            m.quality_changes == self@.quality_changes,
            m.quality == self@.quality,
            m.worst_quality == self@.worst_quality,
            rate::units_of(m.bytes_per_second) == self@.bandwidth.rate,
            estimate::nanos_of(m.smoothed_rtt) == self@.rtt.average_nanos(),
            m.loss_ratio == self@.loss.fraction(),
            m.confident == self@.confident(),
    {
        OptimizationMetrics {
            delivery_samples: self.delivery_samples,
            rtt_samples: self.rtt_samples,
            loss_samples: self.loss_samples,
            quality_changes: self.quality_changes,
            quality: self.quality,
            worst_quality: self.worst_quality,
            bytes_per_second: self.bandwidth.bytes_per_second(),
            smoothed_rtt: self.rtt.smoothed_rtt(),
            loss_ratio: self.loss.ratio(),
            confident: self.is_confident(),
        }
    }

    /// Returns a complete plan for the current conditions.
    pub fn plan(&self) -> (p: OptimizationPlan)
        ensures
            p.quality == self@.quality,
            p.payload_size == advisor::payload_advised(self@.product()),
            p.compression == CompressionStrategy::suited(self@.quality),
            p.cache.suits(self@.quality),
            p.delta_sync.suits(self@.quality),
            p.retry_timeout.nanos() == self@.rtt.timeout(),
            p.in_flight_bytes == advisor::in_flight_advised(self@.product()),
            p.confident == self@.confident(),
    {
        OptimizationPlan {
            quality: self.quality,
            payload_size: self.payload_size(),
            compression: self.compression_strategy(),
            cache: self.cache_strategy(),
            delta_sync: self.delta_sync_strategy(),
            retry_timeout: self.rtt.retransmit_timeout(),
            in_flight_bytes: self.in_flight_bytes(),
            confident: self.is_confident(),
        }
    }

    /// Returns the compression strategy alone.
    pub fn compression_strategy(&self) -> (s: CompressionStrategy)
        ensures
            s == CompressionStrategy::suited(self@.quality),
    {
        CompressionStrategy::for_quality(self.quality)
    }

    /// Returns the cache strategy alone.
    pub fn cache_strategy(&self) -> (s: CacheStrategy)
        ensures
            s.suits(self@.quality),
    {
        CacheStrategy::for_quality(self.quality)
    }

    /// Returns the delta synchronization strategy alone.
    pub fn delta_sync_strategy(&self) -> (s: DeltaSyncStrategy)
        ensures
            s.suits(self@.quality),
    {
        DeltaSyncStrategy::for_quality(self.quality)
    }

    /// Returns the recommended payload size in bytes.
    ///
    /// Derived from the bandwidth-delay product: aiming at roughly an eighth of
    /// it keeps several payloads in flight rather than one large one, so a loss
    /// is cheap to recover and latency stays low.
    pub fn payload_size(&self) -> (n: usize)
        ensures
            n == advisor::payload_advised(self@.product()),
    {
        advisor::payload_size_for(advisor::bandwidth_delay_product(&self.bandwidth, &self.rtt))
    }

    /// Returns how many bytes to keep in flight.
    ///
    /// This is the bandwidth-delay product: enough to keep the link busy for a
    /// round trip. Less underuses it; much more only fills buffers and adds
    /// latency.
    pub fn in_flight_bytes(&self) -> (n: u64)
        ensures
            n == advisor::in_flight_advised(self@.product()),
    {
        advisor::in_flight_bytes_for(advisor::bandwidth_delay_product(&self.bandwidth, &self.rtt))
    }

    /// Discards every measurement, as after a route change or reconnection. What
    /// was recorded stays counted.
    ///
    /// The worst grade is cleared too: conditions on a new path say nothing about
    /// the old one.
    pub fn reset(&mut self)
        ensures
            final(self)@ == old(self)@.rerouted(),
    {
        proof {
            use_type_invariant(&*self);
        }
        let mut bandwidth = self.bandwidth;
        let mut rtt = self.rtt;
        let mut loss = self.loss;
        bandwidth.reset();
        rtt.reset();
        loss.reset();
        self.bandwidth = bandwidth;
        self.rtt = rtt;
        self.loss = loss;
        self.quality = NetworkQuality::Good;
        self.worst_quality = NetworkQuality::Excellent;
    }

    /// Recomputes the grade from whatever measurements exist.
    fn regrade(&mut self)
        requires
            old(self)@.quality_changes < old(self)@.total_samples() <= u64::MAX,
        ensures
            final(self)@ == old(self)@.regraded(),
    {
        proof {
            use_type_invariant(&*self);
        }
        let mut grades: Vec<NetworkQuality> = Vec::new();
        match self.bandwidth.bytes_per_second() {
            Some(rate) => grades.push(NetworkQuality::from_bandwidth(rate.whole_bytes())),
            None => {},
        }
        match self.rtt.smoothed_rtt() {
            Some(rtt) => grades.push(NetworkQuality::from_rtt(rtt)),
            None => {},
        }
        if self.loss.is_confident() {
            match self.loss.ratio() {
                Some(ratio) => grades.push(NetworkQuality::from_loss(ratio)),
                None => {},
            }
        }
        assert(grades@ =~= self@.grades());
        match NetworkQuality::worst_of(grades.as_slice()) {
            None => {},
            Some(graded) => {
                proof {
                    quality::worst_is_worst(grades@, graded);
                }
                if graded != self.quality {
                    self.quality_changes = self.quality_changes + 1;
                    self.quality = graded;
                }
                self.worst_quality = self.worst_quality.min_of(graded);
            },
        }
    }
}

impl Default for NetworkOptimizer {
    fn default() -> (o: NetworkOptimizer)
        ensures
            o@ == NetworkState::initial(),
    {
        NetworkOptimizer::new()
    }
}

/// The worst grade is remembered: no sample raises it, and a graded link never
/// stands below it. The grade changes at most once with each sample.
pub proof fn the_worst_grade_is_remembered(s: NetworkState)
    ensures
        s.regraded().worst_quality.rank() <= s.worst_quality.rank(),
        s.grades().len() > 0 ==> s.regraded().worst_quality.rank() <= s.regraded().quality.rank(),
        s.quality_changes <= s.regraded().quality_changes <= s.quality_changes + 1,
        s.regraded().quality != s.quality <==> s.regraded().quality_changes == s.quality_changes
            + 1,
{
}

/// The worst dimension grades the link: a fast link that loses more than a tenth
/// of its packets is critical, once enough of them were seen.
pub proof fn heavy_loss_overrides_bandwidth(s: NetworkState)
    requires
        s.loss.confident(),
        s.loss.ratio matches Some(parts) && parts * 10 > quality::LOSS_PARTS,
    ensures
        s.regraded().quality is Critical,
{
    let critical = quality::loss_grade(s.loss.ratio->0, quality::LOSS_PARTS as nat);
    let grades = s.grades();
    assert(grades[grades.len() - 1] == critical);
    assert(grades.contains(critical));
    quality::there_is_a_worst(grades);
    quality::the_worst_grade_decides(grades, quality::worst(grades), critical);
}

/// A dimension that was not measured plays no part: a new link keeps its grade,
/// and losses among a few packets do not count.
pub proof fn unmeasured_dimensions_play_no_part(s: NetworkState)
    requires
        s.bandwidth.rate is None,
        s.rtt.average is None,
        !s.loss.confident(),
    ensures
        s.regraded() == s,
{
}

/// The worst measured dimension grades the link: once a bandwidth, a round trip or
/// enough packets are measured, the link is graded no better than any of them, and
/// exactly as one of them.
pub proof fn every_measured_dimension_counts(s: NetworkState)
    ensures
        ({
            let q = s.regraded().quality;
            let speed = quality::bandwidth_grade(rate::whole_bytes_of(s.bandwidth.rate->0));
            let latency = quality::rtt_grade(estimate::rounded(s.rtt.average->0));
            let loss = quality::loss_grade(s.loss.ratio->0, 1_000_000_000_000_000_000);
            let lossy = s.loss.ratio is Some && s.loss.delivered + s.loss.lost >= 20;
            &&& s.bandwidth.rate is Some ==> q.rank() <= speed.rank()
            &&& s.rtt.average is Some ==> q.rank() <= latency.rank()
            &&& lossy ==> q.rank() <= loss.rank()
            &&& s.bandwidth.rate is Some || s.rtt.average is Some || lossy ==> {
                ||| s.bandwidth.rate is Some && q == speed
                ||| s.rtt.average is Some && q == latency
                ||| lossy && q == loss
            }
            &&& s.bandwidth.rate is None && s.rtt.average is None && !lossy ==> q == s.quality
        }),
{
    let grades = s.grades();
    let speed = quality::bandwidth_grade(rate::whole_bytes_of(s.bandwidth.rate->0));
    let latency = quality::rtt_grade(estimate::rounded(s.rtt.average->0));
    let loss = quality::loss_grade(s.loss.ratio->0, quality::LOSS_PARTS as nat);
    if grades.len() > 0 {
        quality::there_is_a_worst(grades);
        let w = quality::worst(grades);
        if s.bandwidth.rate is Some {
            assert(grades[0] == speed);
        }
        if s.rtt.average is Some {
            let at = if s.bandwidth.rate is Some {
                1int
            } else {
                0
            };
            assert(grades[at] == latency);
        }
        if s.loss.ratio is Some && s.loss.confident() {
            assert(grades[grades.len() - 1] == loss);
        }
        let i = grades.index_of(w);
        assert(grades[i] == w);
    }
}

/// The grade and what is remembered of it are all that grading changes: the worst
/// grade falls to the new one if that is worse, and a change of grade is counted.
pub proof fn grading_keeps_measurements(s: NetworkState)
    ensures
        s.regraded().bandwidth == s.bandwidth && s.regraded().rtt == s.rtt && s.regraded().loss
            == s.loss,
        s.regraded().delivery_samples == s.delivery_samples,
        s.regraded().rtt_samples == s.rtt_samples,
        s.regraded().loss_samples == s.loss_samples,
        s.regraded().worst_quality == s.worst_quality || s.regraded().worst_quality
            == s.regraded().quality,
        s.bandwidth.rate is Some || s.rtt.average is Some ==> s.regraded().worst_quality.rank()
            <= s.regraded().quality.rank(),
        s.regraded().worst_quality.rank() <= s.worst_quality.rank(),
{
    if s.bandwidth.rate is Some {
        assert(s.grades()[0] == quality::bandwidth_grade(
            rate::whole_bytes_of(s.bandwidth.rate->0),
        ));
    }
}

/// Each kind of sample goes to its own estimate, is counted as one of its kind, and
/// leaves the other estimates alone; and the link is graded by what is then known.
pub proof fn samples_go_to_their_own_estimate(
    s: NetworkState,
    bytes: nat,
    nanos: nat,
    delivered: nat,
    lost: nat,
)
    ensures
        ({
            let after = s.after_delivery(bytes, nanos);
            &&& after.bandwidth == s.bandwidth.after(bytes, nanos)
            &&& after.rtt == s.rtt && after.loss == s.loss
            &&& after.delivery_samples == s.delivery_samples + 1
            &&& after.rtt_samples == s.rtt_samples && after.loss_samples == s.loss_samples
            &&& after.quality == after.regraded().quality
        }),
        ({
            let after = s.after_rtt(nanos);
            &&& after.rtt == s.rtt.after(nanos)
            &&& after.bandwidth == s.bandwidth && after.loss == s.loss
            &&& after.rtt_samples == s.rtt_samples + 1
            &&& after.delivery_samples == s.delivery_samples && after.loss_samples
                == s.loss_samples
            &&& after.quality == after.regraded().quality
        }),
        ({
            let after = s.after_loss(delivered, lost);
            &&& after.loss == s.loss.after(delivered, lost)
            &&& after.bandwidth == s.bandwidth && after.rtt == s.rtt
            &&& after.loss_samples == s.loss_samples + 1
            &&& after.delivery_samples == s.delivery_samples && after.rtt_samples == s.rtt_samples
            &&& after.quality == after.regraded().quality
        }),
{
    grading_twice_changes_nothing(
        NetworkState {
            bandwidth: s.bandwidth.after(bytes, nanos),
            delivery_samples: s.delivery_samples + 1,
            ..s
        },
    );
    grading_twice_changes_nothing(
        NetworkState { rtt: s.rtt.after(nanos), rtt_samples: s.rtt_samples + 1, ..s },
    );
    grading_twice_changes_nothing(
        NetworkState {
            loss: s.loss.after(delivered, lost),
            loss_samples: s.loss_samples + 1,
            ..s
        },
    );
}

proof fn grading_twice_changes_nothing(s: NetworkState)
    ensures
        s.regraded().regraded().quality == s.regraded().quality,
{
    assert(s.regraded().grades() =~= s.grades());
}

/// A new path starts from nothing: no measurement and no grade of the old one is
/// left, and the plan for it is not to be trusted yet.
pub proof fn a_new_link_starts_from_nothing(s: NetworkState)
    ensures
        s.rerouted().bandwidth.rate is None && s.rerouted().bandwidth.peak == 0,
        s.rerouted().bandwidth.samples == 0 && s.rerouted().bandwidth.share == s.bandwidth.share,
        s.rerouted().rtt.average is None && s.rerouted().rtt.floor is None,
        s.rerouted().rtt.variation == 0 && s.rerouted().rtt.samples == 0,
        s.rerouted().loss.ratio is None && s.rerouted().loss.delivered == 0
            && s.rerouted().loss.lost == 0,
        s.rerouted().loss.share == s.loss.share,
        s.rerouted().quality is Good && s.rerouted().worst_quality is Excellent,
        !s.rerouted().confident(),
        s.rerouted().total_samples() == s.delivery_samples + s.rtt_samples + s.loss_samples,
        s.confident() <==> s.bandwidth.samples >= 4 && s.rtt.samples >= 4,
{
}

/// Before anything is measured, a link counts as good, nothing worse was seen of it,
/// and nothing is counted.
pub proof fn unmeasured_links_count_as_good()
    ensures
        ({
            let s = NetworkState::initial();
            &&& s.quality is Good && s.worst_quality is Excellent
            &&& s.delivery_samples == 0 && s.rtt_samples == 0 && s.loss_samples == 0
            &&& s.quality_changes == 0
            &&& s.bandwidth.rate is None && s.rtt.average is None && s.loss.ratio is None
            &&& s.bandwidth.samples == 0 && s.rtt.samples == 0
        }),
{
}

} // verus!
