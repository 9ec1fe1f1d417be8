//! Turning network estimates into concrete sending decisions.
//!
//! How big should the next payload be, how hard should it be compressed, how
//! long before a retry: the answers come from measurements rather than from
//! fixed constants. Every recommendation is *advice*. Nothing here sends
//! anything; a caller is free to ignore it.

use crate::optimizer::estimate;
use crate::optimizer::estimate::{BandwidthEstimator, BandwidthState, RttEstimator, RttState};
use crate::optimizer::estimate::ENOUGH_SAMPLES;
use crate::rate;
use crate::rate::Rate;
use crate::time::Duration;
use vstd::prelude::*;

verus! {

/// How aggressively to compress.
///
/// Named rather than numeric so the intent survives a change to the underlying
/// scale.
#[derive(Debug, Clone, Copy, PartialEq, Eq, PartialOrd, Ord, Structural)]
#[non_exhaustive]
pub enum CompressionAdvice {
    /// Do not compress. The link is fast enough that compression costs more time
    /// than it saves.
    Skip,
    /// Compress lightly, favouring speed.
    Fast,
    /// The balanced default.
    Balanced,
    /// Compress hard, favouring size. Worth it when bandwidth is the bottleneck.
    Maximum,
}

impl CompressionAdvice {
    /// The level on the scale from 0 to 100.
    pub open spec fn strength(self) -> u8 {
        match self {
            CompressionAdvice::Skip => 0,
            CompressionAdvice::Fast => 15,
            CompressionAdvice::Balanced => 50,
            CompressionAdvice::Maximum => 90,
        }
    }

    /// Returns the level on the scale from 0 to 100.
    pub fn level(self) -> (l: u8)
        ensures
            l == self.strength(),
    {
        match self {
            CompressionAdvice::Skip => 0,
            CompressionAdvice::Fast => 15,
            CompressionAdvice::Balanced => 50,
            CompressionAdvice::Maximum => 90,
        }
    }

    /// Returns `true` unless this advises skipping compression.
    pub fn should_compress(self) -> (r: bool)
        ensures
            r == (self !is Skip),
    {
        match self {
            CompressionAdvice::Skip => false,
            _ => true,
        }
    }
}

/// The smallest payload the optimizer will recommend.
///
/// Below roughly this size, per-frame overhead dominates and throughput
/// collapses regardless of link speed.
pub const MIN_PAYLOAD: usize = 1024;

/// The largest payload the optimizer will recommend.
///
/// Beyond this, a single lost payload costs too much to retransmit and latency
/// suffers on any link that is not exceptionally fast.
pub const MAX_PAYLOAD: usize = 1024 * 1024;

/// The payload size used before measurements exist.
///
/// Chosen to sit just under a typical Ethernet MTU once framing and headers are
/// accounted for, so an unmeasured connection does not immediately fragment.
pub const DEFAULT_PAYLOAD: usize = 1400;

/// Bandwidth below which compressing hard is worthwhile: 256 KiB/s.
pub const SLOW_LINK_BYTES_PER_SECOND: u64 = 256 * 1024;

/// Bandwidth above which compression stops paying: 32 MiB/s.
pub const FAST_LINK_BYTES_PER_SECOND: u64 = 32 * 1024 * 1024;

/// The compression level that a link of so many units of rate asks for: hard on
/// a slow link, none on a fast one, lightly from a quarter of that speed, and
/// balanced in between and where nothing is measured.
pub open spec fn compression_advised(rate: Option<nat>) -> CompressionAdvice {
    match rate {
        None => CompressionAdvice::Balanced,
        Some(r) => if r <= SLOW_LINK_BYTES_PER_SECOND * rate::UNITS {
            CompressionAdvice::Maximum
        } else if r >= FAST_LINK_BYTES_PER_SECOND * rate::UNITS {
            CompressionAdvice::Skip
        } else if r >= FAST_LINK_BYTES_PER_SECOND / 4 * rate::UNITS {
            CompressionAdvice::Fast
        } else {
            CompressionAdvice::Balanced
        },
    }
}

/// Recommends a compression level from the link speed.
///
/// The trade is time: compression is worth it exactly when the transmission time
/// saved exceeds the CPU time spent. That makes it a function of bandwidth, not
/// of payload content.
pub fn compression_for(rate: Option<Rate>) -> (c: CompressionAdvice)
    ensures
        c == compression_advised(rate::units_of(rate)),
{
    match rate {
        // Without measurement, the balanced default is the safe choice.
        None => CompressionAdvice::Balanced,
        Some(r) => {
            if r.is_at_most(SLOW_LINK_BYTES_PER_SECOND) {
                CompressionAdvice::Maximum
            } else if r.whole_bytes() >= FAST_LINK_BYTES_PER_SECOND {
                CompressionAdvice::Skip
            } else if r.whole_bytes() >= FAST_LINK_BYTES_PER_SECOND / 4 {
                CompressionAdvice::Fast
            } else {
                CompressionAdvice::Balanced
            }
        },
    }
}

/// The bandwidth-delay product in whole bytes: what keeps the link busy for one
/// round trip. There is one once both are measured.
pub open spec fn delay_product(bandwidth: BandwidthState, rtt: RttState) -> Option<nat> {
    match (bandwidth.rate, rtt.average_nanos()) {
        (Some(units), Some(nanos)) => Some(rate::volume(units, nanos)),
        _ => None,
    }
}

/// Returns the bandwidth-delay product in whole bytes, as far as 64 bits hold
/// them.
pub fn bandwidth_delay_product(bandwidth: &BandwidthEstimator, rtt: &RttEstimator) -> (p: Option<
    u64,
>)
    ensures
        match p {
            Some(bytes) => delay_product(bandwidth@, rtt@) == Some(bytes as nat),
            None => delay_product(bandwidth@, rtt@) is None,
        },
{
    match (bandwidth.bytes_per_second(), rtt.smoothed_rtt()) {
        (Some(rate), Some(span)) => Some(rate.over(span)),
        _ => None,
    }
}

/// The payload size that a link with this bandwidth-delay product asks for.
pub open spec fn payload_advised(product: Option<nat>) -> nat {
    match product {
        None => DEFAULT_PAYLOAD as nat,
        Some(p) => if p / 8 < MIN_PAYLOAD {
            MIN_PAYLOAD as nat
        } else if p / 8 > MAX_PAYLOAD {
            MAX_PAYLOAD as nat
        } else {
            p / 8
        },
    }
}

/// A number of bytes, where there is one.
pub open spec fn counted(product: Option<u64>) -> Option<nat> {
    match product {
        Some(p) => Some(p as nat),
        None => None,
    }
}

/// Recommends a payload size from the bandwidth-delay product in whole bytes,
/// where there is one.
///
/// A payload should be small enough to transmit quickly relative to the round
/// trip, so that loss is cheap to recover and latency stays low. Aiming at an
/// eighth of the product keeps several payloads in flight rather than one large
/// one.
pub fn payload_size_for(product: Option<u64>) -> (n: usize)
    ensures
        n == payload_advised(counted(product)),
{
    match product {
        None => DEFAULT_PAYLOAD,
        Some(p) => {
            let target: u64 = p / 8;
            if target < MIN_PAYLOAD as u64 {
                MIN_PAYLOAD
            } else if target > MAX_PAYLOAD as u64 {
                MAX_PAYLOAD
            } else {
                target as usize
            }
        },
    }
}

/// How many bytes a link with this bandwidth-delay product should have in
/// flight.
pub open spec fn in_flight_advised(product: Option<nat>) -> nat {
    match product {
        None => (DEFAULT_PAYLOAD * 8) as nat,
        Some(p) => if p < MIN_PAYLOAD {
            MIN_PAYLOAD as nat
        } else {
            p
        },
    }
}

/// Recommends how many bytes to keep in flight, from the bandwidth-delay product
/// in whole bytes, where there is one.
///
/// The product is the amount of data needed to keep the link busy for one round
/// trip. Sending less underuses the link; sending much more only fills buffers
/// and adds latency.
pub fn in_flight_bytes_for(product: Option<u64>) -> (n: u64)
    ensures
        n == in_flight_advised(counted(product)),
{
    match product {
        None => (DEFAULT_PAYLOAD * 8) as u64,
        Some(p) => {
            if p < MIN_PAYLOAD as u64 {
                MIN_PAYLOAD as u64
            } else {
                p
            }
        },
    }
}

/// A complete set of sending recommendations.
#[derive(Debug, Clone, Copy, PartialEq, Eq, Structural)]
#[non_exhaustive]
pub struct Recommendation {
    /// The payload size to aim for, in bytes.
    pub payload_size: usize,
    /// How hard to compress.
    pub compression: CompressionAdvice,
    /// How long to wait before treating a send as lost.
    pub retry_timeout: Duration,
    /// How many bytes may be in flight before waiting for acknowledgement.
    pub in_flight_bytes: u64,
    /// Whether these figures rest on enough measurement to be trusted.
    ///
    /// When `false`, the values are defaults rather than conclusions.
    pub confident: bool,
}

/// What is measured of a link.
pub struct OptimizerState {
    /// Its bandwidth.
    pub bandwidth: BandwidthState,
    /// Its round trips.
    pub rtt: RttState,
}

impl OptimizerState {
    /// Nothing is measured yet.
    pub open spec fn initial() -> OptimizerState {
        OptimizerState {
            bandwidth: BandwidthState::initial(estimate::eighth()),
            rtt: RttState::initial(),
        }
    }

    /// Both estimates rest on enough samples.
    pub open spec fn confident(self) -> bool {
        self.bandwidth.confident() && self.rtt.confident()
    }
}

/// Produces sending advice from observed network conditions.
#[derive(Debug, Clone, Copy, PartialEq, Eq, Structural)]
pub struct Optimizer {
    bandwidth: BandwidthEstimator,
    rtt: RttEstimator,
}

impl View for Optimizer {
    type V = OptimizerState;

    closed spec fn view(&self) -> OptimizerState {
        OptimizerState { bandwidth: self.bandwidth@, rtt: self.rtt@ }
    }
}

impl Optimizer {
    /// Creates an optimizer with no measurements.
    pub fn new() -> (o: Optimizer)
        ensures
            o@ == OptimizerState::initial(),
    {
        Optimizer { bandwidth: BandwidthEstimator::new(), rtt: RttEstimator::new() }
    }

    /// Records that `bytes` were delivered in `elapsed`.
    pub fn record_delivery(&mut self, bytes: u64, elapsed: Duration)
        requires
            old(self)@.bandwidth.samples < u64::MAX,
        ensures
            final(self)@ == (OptimizerState {
                bandwidth: old(self)@.bandwidth.after(bytes as nat, elapsed.nanos()),
                ..old(self)@
            }),
    {
        self.bandwidth.sample(bytes, elapsed);
    }

    /// Records a round-trip time measurement.
    pub fn record_rtt(&mut self, rtt: Duration)
        requires
            old(self)@.rtt.samples < u64::MAX,
        ensures
            final(self)@ == (OptimizerState {
                rtt: old(self)@.rtt.after(rtt.nanos()),
                ..old(self)@
            }),
    {
        self.rtt.sample(rtt);
    }

    /// Returns the bandwidth estimator.
    pub fn bandwidth(&self) -> (e: &BandwidthEstimator)
        ensures
            e@ == self@.bandwidth,
    {
        &self.bandwidth
    }

    /// Returns the round-trip time estimator.
    pub fn rtt(&self) -> (e: &RttEstimator)
        ensures
            e@ == self@.rtt,
    {
        &self.rtt
    }

    /// Returns `true` once both estimators have enough samples.
    pub fn is_confident(&self) -> (r: bool)
        ensures
            r == self@.confident(),
    {
        self.bandwidth.is_confident() && self.rtt.samples() >= ENOUGH_SAMPLES
    }

    /// Returns the current recommendations.
    pub fn recommend(&self) -> (r: Recommendation)
        ensures
            r.payload_size == payload_advised(delay_product(self@.bandwidth, self@.rtt)),
            r.compression == compression_advised(self@.bandwidth.rate),
            r.retry_timeout.nanos() == self@.rtt.timeout(),
            r.in_flight_bytes == in_flight_advised(delay_product(self@.bandwidth, self@.rtt)),
            r.confident == self@.confident(),
    {
        let product = bandwidth_delay_product(&self.bandwidth, &self.rtt);
        Recommendation {
            payload_size: payload_size_for(product),
            compression: compression_for(self.bandwidth.bytes_per_second()),
            retry_timeout: self.rtt.retransmit_timeout(),
            in_flight_bytes: in_flight_bytes_for(product),
            confident: self.is_confident(),
        }
    }

    /// Discards all measurements, as after a route change or reconnection.
    pub fn reset(&mut self)
        ensures
            final(self)@ == (OptimizerState {
                bandwidth: BandwidthState::initial(old(self)@.bandwidth.share),
                rtt: RttState::initial(),
            }),
    {
        self.bandwidth.reset();
        self.rtt.reset();
    }
}

impl Default for Optimizer {
    fn default() -> (o: Optimizer)
        ensures
            o@ == OptimizerState::initial(),
    {
        Optimizer::new()
    }
}

/// Payloads stay within bounds, whatever is measured.
pub proof fn payloads_stay_within_bounds(product: Option<nat>)
    ensures
        MIN_PAYLOAD <= payload_advised(product) <= MAX_PAYLOAD,
        in_flight_advised(product) >= MIN_PAYLOAD,
{
}

/// A fatter pipe never carries smaller payloads, nor fewer bytes in flight.
pub proof fn fatter_pipes_carry_more(thin: nat, fat: nat)
    requires
        thin <= fat,
    ensures
        payload_advised(Some(thin)) <= payload_advised(Some(fat)),
        in_flight_advised(Some(thin)) <= in_flight_advised(Some(fat)),
{
}

/// A faster link, and one with a longer way, is a fatter pipe.
pub proof fn faster_and_longer_links_are_fatter(slow: nat, fast: nat, near: nat, far: nat)
    requires
        slow <= fast,
        near <= far,
    ensures
        rate::volume(slow, near) <= rate::volume(fast, far),
{
    assert(slow * near <= fast * far) by (nonlinear_arith)
        requires
            0 <= slow <= fast,
            0 <= near <= far,
    ;
    vstd::arithmetic::div_mod::lemma_div_is_ordered(
        (slow * near) as int,
        (fast * far) as int,
        rate::UNIT_NANOS as int,
    );
}

/// A payload is a fraction of what may be in flight, once the pipe holds more
/// than the smallest payloads.
pub proof fn payloads_fit_the_budget(product: nat)
    requires
        product >= 8 * MIN_PAYLOAD,
    ensures
        payload_advised(Some(product)) * 8 <= in_flight_advised(Some(product)),
{
}

/// The slower the link, the harder it is advised to compress.
pub proof fn slower_links_compress_harder(slow: nat, fast: nat)
    requires
        slow <= fast,
    ensures
        compression_advised(Some(slow)).strength() >= compression_advised(Some(fast)).strength(),
{
}

/// The bandwidth-delay product is the smoothed rate times the average round trip,
/// in whole bytes: two links of one rate and one average have one product, whatever
/// else was measured of them. There is none before both are measured.
pub proof fn products_are_rate_times_round_trip(
    bandwidth: BandwidthState,
    rtt: RttState,
    other: BandwidthState,
    another: RttState,
)
    ensures
        delay_product(bandwidth, rtt) is Some <==> bandwidth.rate is Some && rtt.average is Some,
        other.rate == bandwidth.rate && another.average == rtt.average ==> delay_product(
            other,
            another,
        ) == delay_product(bandwidth, rtt),
        bandwidth.rate is Some && rtt.average is Some ==> ({
            let moved = bandwidth.rate->0 * estimate::rounded(rtt.average->0);
            let scale = 1_000_000_000 * 0x1_0000_0000int;
            let product = delay_product(bandwidth, rtt)->0;
            if moved < scale * 0x1_0000_0000_0000_0000 {
                product * scale <= moved < (product + 1) * scale
            } else {
                product == u64::MAX
            }
        }),
{
    if bandwidth.rate is Some && rtt.average is Some {
        rate::volumes_are_rate_times_time(
            bandwidth.rate->0,
            estimate::rounded(rtt.average->0),
        );
    }
}

/// A payload is an eighth of the product, to the byte below, from 1 KiB to 1 MiB,
/// and what may be in flight is the product, from 1 KiB on. Before there is a
/// product, a payload fits an Ethernet frame and eight of them may be in flight.
pub proof fn payloads_are_an_eighth_of_the_product(product: nat)
    ensures
        payload_advised(None) == 1400,
        in_flight_advised(None) == 8 * 1400,
        8 * 1024 <= product < 8 * (1_048_576 + 1) ==> payload_advised(Some(product)) * 8 <= product
            < (payload_advised(Some(product)) + 1) * 8,
        product < 8 * 1024 ==> payload_advised(Some(product)) == 1024,
        product >= 8 * 1_048_576 ==> payload_advised(Some(product)) == 1_048_576,
        product >= 1024 ==> in_flight_advised(Some(product)) == product,
        product < 1024 ==> in_flight_advised(Some(product)) == 1024,
{
}

/// Compression is advised by speed: hard up to 256 KiB/s, not at all from 32 MiB/s,
/// lightly from 8 MiB/s, and balanced in between or before anything is measured.
pub proof fn compression_follows_speed(units: nat)
    ensures
        compression_advised(None) is Balanced,
        compression_advised(Some(units)) is Maximum <==> units <= 262_144 * 0x1_0000_0000,
        compression_advised(Some(units)) is Skip <==> units >= 33_554_432 * 0x1_0000_0000,
        compression_advised(Some(units)) is Fast <==> 8_388_608 * 0x1_0000_0000 <= units
            < 33_554_432 * 0x1_0000_0000,
        CompressionAdvice::Skip.strength() < CompressionAdvice::Fast.strength(),
        CompressionAdvice::Fast.strength() < CompressionAdvice::Balanced.strength(),
        CompressionAdvice::Balanced.strength() < CompressionAdvice::Maximum.strength() <= 100,
{
}

/// How hard each advice compresses, on the scale from 0 to 100.
pub proof fn advice_has_its_strength(a: CompressionAdvice)
    ensures
        a.strength() == match a {
            CompressionAdvice::Skip => 0int,
            CompressionAdvice::Fast => 15,
            CompressionAdvice::Balanced => 50,
            CompressionAdvice::Maximum => 90,
        },
{
}

/// Advice starts from nothing measured, and rests on enough samples only where both
/// estimates do.
pub proof fn advice_rests_on_both_estimates(s: OptimizerState)
    ensures
        OptimizerState::initial().bandwidth.rate is None,
        OptimizerState::initial().bandwidth.samples == 0,
        OptimizerState::initial().bandwidth.peak == 0,
        8 * OptimizerState::initial().bandwidth.share.numerator
            == OptimizerState::initial().bandwidth.share.denominator,
        OptimizerState::initial().rtt.average is None,
        OptimizerState::initial().rtt.samples == 0,
        OptimizerState::initial().rtt.floor is None,
        s.confident() <==> s.bandwidth.confident() && s.rtt.confident(),
{
}

} // verus!
