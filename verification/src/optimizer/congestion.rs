//! Congestion detection and window control.
//!
//! Loss-based congestion control waits for a packet to be dropped. By then the
//! bottleneck queue is already full. Queues fill before they overflow, and a
//! filling queue shows up as round-trip time rising above the minimum of the
//! path, so that inflation is the primary signal and loss the fallback.

use crate::optimizer::estimate;
use crate::optimizer::estimate::FRACTIONS;
use crate::ratio::Ratio;
use crate::smoothing;
use crate::time::{Duration, MAX_NANOS};
use crate::wide;
use vstd::prelude::*;

verus! {

/// What was concluded from the latest measurement.
#[derive(Debug, Clone, Copy, PartialEq, Eq, Hash, Structural)]
#[non_exhaustive]
pub enum CongestionSignal {
    /// No sign of congestion.
    Clear,
    /// Round-trip time is rising above the path minimum: a queue is building.
    ///
    /// This is the predictive signal. Reducing the send rate now avoids the loss
    /// that would otherwise follow.
    Queueing,
    /// A packet was lost. Congestion is no longer a prediction.
    Loss,
}

impl CongestionSignal {
    /// Returns `true` if the sender should reduce its rate.
    pub fn should_back_off(self) -> (r: bool)
        ensures
            r == (self !is Clear),
    {
        match self {
            CongestionSignal::Clear => false,
            CongestionSignal::Queueing | CongestionSignal::Loss => true,
        }
    }

    /// The signal in words.
    pub open spec fn text(self) -> Seq<char> {
        match self {
            CongestionSignal::Clear => "none"@,
            CongestionSignal::Queueing => "queueing"@,
            CongestionSignal::Loss => "loss"@,
        }
    }

    /// Returns the signal in words.
    pub fn to_string(&self) -> (s: String)
        ensures
            s@ == self.text(),
    {
        match self {
            CongestionSignal::Clear => "none".to_owned(),
            CongestionSignal::Queueing => "queueing".to_owned(),
            CongestionSignal::Loss => "loss".to_owned(),
        }
    }
}

/// How many round trips have to be measured before inflation counts: until then
/// the minimum has not settled, and almost anything looks inflated against it.
pub const SETTLED_SAMPLES: u64 = 8;

/// How much round-trip time may rise above the path minimum before it counts as
/// queueing: a quarter.
///
/// Tight enough to notice a queue forming, loose enough that ordinary scheduling
/// noise on a fast path does not constantly trip it.
pub open spec fn usual_threshold() -> Ratio {
    Ratio { numerator: 5, denominator: 4 }
}

/// A fifth, the share of the distance that a round trip moves the average by.
pub open spec fn fifth() -> Ratio {
    Ratio { numerator: 1, denominator: 5 }
}

/// Returns the default queueing threshold, a quarter above the path minimum.
pub fn default_queueing_threshold() -> (r: Ratio)
    ensures
        r == usual_threshold(),
{
    Ratio::new(5, 4)
}

/// The threshold that is in effect when `threshold` is asked for: from 1.05 to 4.
/// One at or below 1 would report queueing constantly.
pub open spec fn effective_threshold(threshold: Ratio) -> Ratio {
    if threshold.numerator * 20 < threshold.denominator * 21 {
        Ratio { numerator: 21, denominator: 20 }
    } else if threshold.numerator > threshold.denominator * 4 {
        Ratio { numerator: 4, denominator: 1 }
    } else {
        threshold
    }
}

/// What is known of the congestion of a path.
pub struct PathState {
    /// The average round-trip time, in parts of a nanosecond.
    pub average: Option<nat>,
    /// The shortest round trip, in nanoseconds.
    pub floor: Option<nat>,
    /// How far the average may stand above the shortest round trip.
    pub threshold: Ratio,
    /// The round trips measured.
    pub samples: nat,
    /// How often queueing was detected.
    pub queueing_events: nat,
    /// How many losses were reported.
    pub loss_events: nat,
    /// The most recent signal.
    pub signal: CongestionSignal,
}

impl PathState {
    /// Nothing is known yet.
    pub open spec fn initial(threshold: Ratio) -> PathState {
        PathState {
            average: None,
            floor: None,
            threshold,
            samples: 0,
            queueing_events: 0,
            loss_events: 0,
            signal: CongestionSignal::Clear,
        }
    }

    /// The average stands at the threshold above the shortest round trip, or
    /// beyond.
    pub open spec fn inflated(self) -> bool {
        match (self.average, self.floor) {
            (Some(average), Some(floor)) => average * self.threshold.denominator >= floor
                * FRACTIONS * self.threshold.numerator,
            _ => false,
        }
    }

    /// One round trip of `nanos` more, before it gives a signal.
    pub open spec fn measured(self, nanos: nat) -> PathState {
        PathState {
            average: Some(
                smoothing::averaged(self.average, nanos * FRACTIONS as nat, fifth()),
            ),
            floor: Some(estimate::shortest_with(self.floor, nanos)),
            samples: self.samples + 1,
            ..self
        }
    }

    /// One round trip of `nanos` more. An empty one is ignored.
    pub open spec fn observed(self, nanos: nat) -> PathState {
        let next = self.measured(nanos);
        if nanos == 0 {
            self
        } else if next.samples >= SETTLED_SAMPLES && next.inflated() {
            PathState {
                queueing_events: self.queueing_events + 1,
                signal: CongestionSignal::Queueing,
                ..next
            }
        } else {
            PathState { signal: CongestionSignal::Clear, ..next }
        }
    }

    /// One lost packet more.
    pub open spec fn lost(self) -> PathState {
        PathState {
            loss_events: self.loss_events + 1,
            signal: CongestionSignal::Loss,
            ..self
        }
    }

    /// Another path, of which nothing is known yet.
    pub open spec fn rerouted(self) -> PathState {
        PathState {
            average: None,
            floor: None,
            samples: 0,
            signal: CongestionSignal::Clear,
            queueing_events: 0,
            loss_events: 0,
            ..self
        }
    }

    /// The time that packets spend queued, in nanoseconds: what the average
    /// stands above the shortest round trip.
    pub open spec fn queued(self) -> Option<nat> {
        match (self.average, self.floor) {
            (Some(average), Some(floor)) => if average > floor * FRACTIONS {
                Some(estimate::rounded((average - floor * FRACTIONS) as nat))
            } else {
                Some(0)
            },
            _ => None,
        }
    }
}

/// How far an average round-trip time stands above the shortest: both in parts of
/// a nanosecond.
#[derive(Debug, Clone, Copy, PartialEq, Eq, Structural)]
pub struct Inflation {
    /// The average round-trip time.
    pub average: u128,
    /// The shortest round-trip time.
    pub floor: u128,
}

impl Inflation {
    /// Returns `true` when the average is `factor` times the shortest round trip,
    /// or more.
    pub fn reaches(&self, factor: Ratio) -> (r: bool)
        ensures
            r == (self.average * factor.denominator >= self.floor * factor.numerator),
    {
        wide::product_reaches(self.average, factor.denominator, self.floor, factor.numerator)
    }
}

/// Detects congestion from round-trip time inflation.
#[derive(Debug, Clone, Copy, PartialEq, Eq, Structural)]
pub struct CongestionDetector {
    min_rtt: Option<Duration>,
    smoothed_rtt: Option<u128>,
    threshold: Ratio,
    samples: u64,
    queueing_events: u64,
    loss_events: u64,
    last_signal: CongestionSignal,
}

impl View for CongestionDetector {
    type V = PathState;

    closed spec fn view(&self) -> PathState {
        PathState {
            average: match self.smoothed_rtt {
                Some(parts) => Some(parts as nat),
                None => None,
            },
            floor: estimate::nanos_of(self.min_rtt),
            threshold: self.threshold,
            samples: self.samples as nat,
            queueing_events: self.queueing_events as nat,
            loss_events: self.loss_events as nat,
            signal: self.last_signal,
        }
    }
}

impl CongestionDetector {
    #[verifier::type_invariant]
    spec fn within_range(self) -> bool {
        self.smoothed_rtt matches Some(parts) ==> parts <= MAX_NANOS * FRACTIONS
    }

    /// Creates a detector with the default threshold.
    pub fn new() -> (d: CongestionDetector)
        ensures
            d@ == PathState::initial(usual_threshold()),
    {
        CongestionDetector {
            min_rtt: None,
            smoothed_rtt: None,
            threshold: default_queueing_threshold(),
            samples: 0,
            queueing_events: 0,
            loss_events: 0,
            last_signal: CongestionSignal::Clear,
        }
    }

    /// Creates a detector with an explicit inflation threshold, at least 1.05 and
    /// at most 4.
    ///
    /// A threshold at or below 1 would report queueing constantly, since the
    /// average is rarely exactly the minimum.
    pub fn with_threshold(threshold: Ratio) -> (d: CongestionDetector)
        requires
            threshold.wf(),
        ensures
            d@ == PathState::initial(effective_threshold(threshold)),
    {
        let (part, whole): (u128, u128) = (
            threshold.numerator as u128,
            threshold.denominator as u128,
        );
        let effective = if part * 20 < whole * 21 {
            Ratio::new(21, 20)
        } else if part > whole * 4 {
            Ratio::new(4, 1)
        } else {
            threshold
        };
        CongestionDetector {
            min_rtt: None,
            smoothed_rtt: None,
            threshold: effective,
            samples: 0,
            queueing_events: 0,
            loss_events: 0,
            last_signal: CongestionSignal::Clear,
        }
    }

    /// Returns the inflation threshold in effect.
    pub fn threshold(&self) -> (r: Ratio)
        ensures
            r == self@.threshold,
    {
        self.threshold
    }

    /// Records a round-trip time measurement and returns the resulting signal.
    pub fn observe(&mut self, rtt: Duration) -> (s: CongestionSignal)
        requires
            old(self)@.samples < u64::MAX,
            old(self)@.queueing_events < u64::MAX,
        ensures
            final(self)@ == old(self)@.observed(rtt.nanos()),
            s == final(self)@.signal,
    {
        if rtt.is_zero() {
            return self.last_signal;
        }
        proof {
            use_type_invariant(&*self);
        }
        let sample: u128 = estimate::parts_of(rtt);
        proof {
            if let Some(current) = self.smoothed_rtt {
                smoothing::averages_stay_within_their_samples(
                    current as nat,
                    sample as nat,
                    fifth(),
                );
            }
        }
        self.samples = self.samples + 1;
        self.min_rtt = Some(estimate::shorter_of(self.min_rtt, rtt));
        self.smoothed_rtt = Some(smoothing::average(self.smoothed_rtt, sample, Ratio::new(1, 5)));
        let inflated = match self.inflation() {
            Some(inflation) => inflation.reaches(self.threshold),
            None => false,
        };
        let signal = if self.samples >= SETTLED_SAMPLES && inflated {
            self.queueing_events = self.queueing_events + 1;
            CongestionSignal::Queueing
        } else {
            CongestionSignal::Clear
        };
        self.last_signal = signal;
        signal
    }

    /// Records a lost packet.
    ///
    /// Loss overrides the delay-based signal: it is unambiguous evidence, where
    /// inflation is an inference.
    pub fn observe_loss(&mut self) -> (s: CongestionSignal)
        requires
            old(self)@.loss_events < u64::MAX,
        ensures
            final(self)@ == old(self)@.lost(),
            s == CongestionSignal::Loss,
    {
        proof {
            use_type_invariant(&*self);
        }
        self.loss_events = self.loss_events + 1;
        self.last_signal = CongestionSignal::Loss;
        CongestionSignal::Loss
    }

    /// Returns the most recent signal.
    pub fn signal(&self) -> (s: CongestionSignal)
        ensures
            s == self@.signal,
    {
        self.last_signal
    }

    /// Returns how far the current round-trip time exceeds the path minimum.
    ///
    /// One means no queueing; two means latency has doubled. There is none before
    /// any measurement.
    pub fn inflation(&self) -> (r: Option<Inflation>)
        ensures
            match r {
                Some(i) => self@.average == Some(i.average as nat) && (self@.floor matches Some(
                    nanos,
                ) && i.floor == nanos * FRACTIONS),
                None => self@.average is None || self@.floor is None,
            },
    {
        match (self.smoothed_rtt, self.min_rtt) {
            (Some(average), Some(min)) => Some(
                Inflation { average, floor: estimate::parts_of(min) },
            ),
            _ => None,
        }
    }

    /// Returns the lowest round-trip time observed.
    pub fn min_rtt(&self) -> (d: Option<Duration>)
        ensures
            estimate::nanos_of(d) == self@.floor,
    {
        self.min_rtt
    }

    /// Returns the estimated time packets are spending queued.
    ///
    /// This is the latency a sender would recover by slowing down, which makes it
    /// the figure worth acting on rather than the raw round-trip time.
    pub fn queueing_delay(&self) -> (d: Option<Duration>)
        ensures
            estimate::nanos_of(d) == self@.queued(),
    {
        proof {
            use_type_invariant(self);
        }
        match (self.smoothed_rtt, self.min_rtt) {
            (Some(average), Some(min)) => {
                let floor: u128 = estimate::parts_of(min);
                if average > floor {
                    Some(estimate::whole_nanos(average - floor))
                } else {
                    Some(Duration::zero())
                }
            },
            _ => None,
        }
    }

    /// Returns how many times queueing has been detected.
    pub fn queueing_events(&self) -> (n: u64)
        ensures
            n == self@.queueing_events,
    {
        self.queueing_events
    }

    /// Returns how many losses have been reported.
    pub fn loss_events(&self) -> (n: u64)
        ensures
            n == self@.loss_events,
    {
        self.loss_events
    }

    /// Discards all history, as after a route change: the measurements and what
    /// was counted.
    ///
    /// The minimum is cleared deliberately: a new path has its own floor, and
    /// keeping the old one would make a slower path look permanently congested.
    pub fn reset(&mut self)
        ensures
            final(self)@ == old(self)@.rerouted(),
    {
        proof {
            use_type_invariant(&*self);
        }
        self.min_rtt = None;
        self.smoothed_rtt = None;
        self.samples = 0;
        self.queueing_events = 0;
        self.loss_events = 0;
        self.last_signal = CongestionSignal::Clear;
    }
}

impl Default for CongestionDetector {
    fn default() -> (d: CongestionDetector)
        ensures
            d@ == PathState::initial(usual_threshold()),
    {
        CongestionDetector::new()
    }
}

/// A few measurements give no verdict, however long a round trip takes; and loss
/// overrides whatever they gave.
pub proof fn few_samples_give_no_verdict(p: PathState, nanos: nat)
    requires
        p.samples + 1 < SETTLED_SAMPLES,
        nanos > 0,
    ensures
        p.observed(nanos).signal is Clear,
        p.observed(nanos).queueing_events == p.queueing_events,
        p.observed(nanos).lost().signal is Loss,
{
}

/// A new path is judged by its own floor: after a reset, the first round trip is
/// the minimum and the average, however fast the old path was, and nothing is left
/// of what was counted on the old one.
pub proof fn a_new_path_has_its_own_floor(p: PathState, nanos: nat)
    requires
        nanos > 0,
    ensures
        p.rerouted().observed(nanos).floor == Some(nanos),
        p.rerouted().observed(nanos).average == Some(nanos * FRACTIONS as nat),
        p.rerouted().observed(nanos).signal is Clear,
        p.rerouted().observed(nanos).queueing_events == 0,
        p.rerouted().observed(nanos).loss_events == 0,
{
}

/// A path whose round trips all take as long never counts as congested.
pub proof fn steady_paths_are_not_congested(p: PathState, nanos: nat)
    requires
        nanos > 0,
        p.floor == Some(nanos),
        p.average == Some(nanos * FRACTIONS as nat),
        p.threshold.numerator > p.threshold.denominator,
    ensures
        p.observed(nanos).floor == p.floor,
        p.observed(nanos).average == p.average,
        p.observed(nanos).signal is Clear,
        p.observed(nanos).queued() == Some(0nat),
{
    let sample = nanos * FRACTIONS as nat;
    smoothing::averages_stay_within_their_samples(sample, sample, fifth());
    let (n, d) = (p.threshold.numerator as int, p.threshold.denominator as int);
    assert(sample * d < sample * n) by (nonlinear_arith)
        requires
            0 < sample,
            d < n,
    ;
}

/// Once the path is settled, an average that stands at the threshold is reported
/// as queueing, before anything is lost.
pub proof fn rising_latency_is_reported(p: PathState, nanos: nat)
    requires
        nanos > 0,
        p.samples + 1 >= SETTLED_SAMPLES,
    ensures
        p.observed(nanos).signal is Queueing <==> p.measured(nanos).inflated(),
        p.observed(nanos).loss_events == p.loss_events,
{
}

/// The path after round trips of these lengths, one after the other.
pub open spec fn observed_all(p: PathState, rtts: Seq<nat>) -> PathState
    decreases rtts.len(),
{
    if rtts.len() == 0 {
        p
    } else {
        observed_all(p, rtts.drop_last()).observed(rtts.last())
    }
}

/// The floor is the shortest round trip since the path was new: it is at most as
/// long as each of them and as long as one of them, and there is none before the
/// first. Empty ones do not count.
pub proof fn the_floor_is_the_shortest_round_trip(p: PathState, rtts: Seq<nat>)
    requires
        p.floor is None,
    ensures
        ({
            let floor = observed_all(p, rtts).floor;
            &&& forall|i: int|
                0 <= i < rtts.len() && #[trigger] rtts[i] > 0 ==> floor is Some && floor->0
                    <= rtts[i]
            &&& floor is Some ==> floor->0 > 0 && rtts.contains(floor->0)
        }),
    decreases rtts.len(),
{
    if rtts.len() > 0 {
        let rest = rtts.drop_last();
        the_floor_is_the_shortest_round_trip(p, rest);
        let known = observed_all(p, rest).floor;
        let floor = observed_all(p, rtts).floor;
        assert forall|i: int| 0 <= i < rtts.len() && #[trigger] rtts[i] > 0 implies floor is Some
            && floor->0 <= rtts[i] by {
            if i < rest.len() {
                assert(rest[i] == rtts[i]);
            }
        }
        if floor is Some {
            if floor == known {
                let i = rest.index_of(floor->0);
                assert(rtts[i] == floor->0);
            } else {
                assert(rtts[rtts.len() - 1] == floor->0);
            }
        }
    }
}

/// What one round trip does: the floor falls to it if it is shorter and stays
/// otherwise, the average moves a fifth of the way to it, and the path counts as
/// queueing exactly if eight round trips are in and the average is the threshold
/// times the floor or more. An empty round trip does nothing.
pub proof fn one_round_trip_moves_floor_and_average(p: PathState, nanos: nat)
    ensures
        p.observed(0) == p,
        nanos > 0 ==> ({
            let after = p.observed(nanos);
            let trip = nanos * FRACTIONS;
            &&& after.floor matches Some(f) && f <= nanos && (f == nanos || p.floor == Some(f))
            &&& p.floor matches Some(old) ==> after.floor->0 <= old
            &&& after.average is Some
            &&& p.average is None ==> after.average->0 == trip
            &&& p.average matches Some(old) ==> -5 < 5 * after.average->0 - (4 * old + trip) < 5
            &&& after.samples == p.samples + 1
            &&& after.threshold == p.threshold
            &&& after.loss_events == p.loss_events
            &&& after.signal !is Loss
            &&& after.signal is Queueing <==> after.samples >= 8 && after.average->0
                * p.threshold.denominator >= after.floor->0 * FRACTIONS * p.threshold.numerator
            &&& after.queueing_events == p.queueing_events + if after.signal is Queueing {
                1int
            } else {
                0
            }
        }),
{
    if let Some(old) = p.average {
        fifths_of_the_way(old, nanos * FRACTIONS as nat);
    }
}

proof fn fifths_of_the_way(old: nat, sample: nat)
    ensures
        -5 < 5 * smoothing::moved(old, sample, fifth()) - (4 * old + sample) < 5,
{
    let gap = if sample >= old {
        sample - old
    } else {
        old - sample
    };
    assert(gap * fifth().numerator as nat == gap);
}

/// A loss is counted, and is the signal until the next round trip; it leaves what
/// was measured as it is.
pub proof fn losses_leave_measurements(p: PathState)
    ensures
        p.lost().signal is Loss,
        p.lost().loss_events == p.loss_events + 1,
        p.lost().queueing_events == p.queueing_events,
        p.lost().average == p.average && p.lost().floor == p.floor,
        p.lost().samples == p.samples && p.lost().threshold == p.threshold,
{
}

/// The time spent queued is what the average stands above the floor, to the
/// nearest nanosecond: nothing where it does not stand above it.
pub proof fn queueing_is_time_above_the_floor(p: PathState)
    ensures
        p.average is None || p.floor is None <==> p.queued() is None,
        (p.average matches Some(average) && p.floor matches Some(floor)) ==> ({
            let above = p.average->0 - p.floor->0 * FRACTIONS;
            let queued = p.queued()->0;
            &&& above <= 0 ==> queued == 0
            &&& above > 0 ==> -FRACTIONS <= 2 * (queued * FRACTIONS - above) <= FRACTIONS
        }),
{
}

/// The threshold in effect is the one asked for wherever that lies from 1.05 to 4,
/// and the nearer of these two where it does not.
pub proof fn thresholds_are_kept_within_bounds(asked: Ratio)
    requires
        asked.wf(),
    ensures
        ({
            let r = effective_threshold(asked);
            &&& r.wf()
            &&& r.numerator * 100 >= r.denominator * 105
            &&& r.numerator <= r.denominator * 4
            &&& asked.numerator * 100 >= asked.denominator * 105 && asked.numerator
                <= asked.denominator * 4 ==> r == asked
            &&& asked.numerator * 100 < asked.denominator * 105 ==> r.numerator * 100
                == r.denominator * 105
            &&& asked.numerator > asked.denominator * 4 ==> r.numerator == r.denominator * 4
        }),
{
}

/// Which phase of congestion control a sender is in.
#[derive(Debug, Clone, Copy, PartialEq, Eq, Hash, Structural)]
#[non_exhaustive]
pub enum CongestionState {
    /// Probing for capacity by growing the window quickly.
    SlowStart,
    /// Near the estimated capacity, growing cautiously.
    CongestionAvoidance,
    /// Backing off after a congestion signal.
    Recovery,
}

impl CongestionState {
    /// The phase in words.
    pub open spec fn text(self) -> Seq<char> {
        match self {
            CongestionState::SlowStart => "slow-start"@,
            CongestionState::CongestionAvoidance => "congestion-avoidance"@,
            CongestionState::Recovery => "recovery"@,
        }
    }

    /// Returns the phase in words.
    pub fn to_string(&self) -> (s: String)
        ensures
            s@ == self.text(),
    {
        match self {
            CongestionState::SlowStart => "slow-start".to_owned(),
            CongestionState::CongestionAvoidance => "congestion-avoidance".to_owned(),
            CongestionState::Recovery => "recovery".to_owned(),
        }
    }
}

/// The default segment size used for window arithmetic, in bytes.
pub const DEFAULT_SEGMENT: u64 = 1400;

/// How many places make one byte of a window.
pub const PLACES: u128 = 0x1_0000_0000;

/// A congestion window. Sizes are counted in places, fractions of a byte.
pub struct WindowState {
    /// The size of the window.
    pub window: nat,
    /// The size at which slow start gives way to cautious growth, once there is
    /// one.
    pub threshold: Option<nat>,
    /// The bytes of a segment.
    pub segment: nat,
    /// The phase.
    pub phase: CongestionState,
    /// How often the window was reduced.
    pub reductions: nat,
}

impl WindowState {
    /// The smallest window: two segments.
    pub open spec fn low(self) -> nat {
        2 * self.segment * PLACES as nat
    }

    /// The largest window: ten thousand segments.
    pub open spec fn high(self) -> nat {
        10_000 * self.segment * PLACES as nat
    }

    /// The window and its threshold stay between the smallest and the largest.
    pub open spec fn wf(self) -> bool {
        &&& self.segment > 0
        &&& self.low() <= self.window <= self.high()
        &&& self.threshold matches Some(t) ==> self.low() <= t <= self.high()
    }

    /// A new window holds ten segments.
    pub open spec fn initial(segment: nat) -> WindowState {
        WindowState {
            window: 10 * segment * PLACES as nat,
            threshold: None,
            segment,
            phase: CongestionState::SlowStart,
            reductions: 0,
        }
    }

    /// A size, brought within the bounds of this window.
    pub open spec fn bounded(self, size: nat) -> nat {
        if size < self.low() {
            self.low()
        } else if size > self.high() {
            self.high()
        } else {
            size
        }
    }

    /// The places by which an acknowledgement grows the window: by what was
    /// acknowledged in slow start, and then by one segment for each window of
    /// bytes.
    pub open spec fn growth(self, bytes: nat) -> nat {
        if self.phase is SlowStart {
            bytes * PLACES as nat
        } else {
            self.segment * bytes * (PLACES * PLACES) as nat / self.window
        }
    }

    /// `bytes` were acknowledged.
    pub open spec fn acknowledged(self, bytes: nat) -> WindowState {
        let grown = self.window + self.growth(bytes);
        let probing = self.phase is SlowStart && !(self.threshold matches Some(t) && grown >= t);
        if bytes == 0 {
            self
        } else {
            WindowState {
                window: self.bounded(grown),
                phase: if probing {
                    CongestionState::SlowStart
                } else {
                    CongestionState::CongestionAvoidance
                },
                ..self
            }
        }
    }

    /// Half the window, and no less than the smallest.
    pub open spec fn halved(self) -> nat {
        if self.window / 2 < self.low() {
            self.low()
        } else {
            self.window / 2
        }
    }

    /// The path is congested: the window is halved.
    pub open spec fn congested(self) -> WindowState {
        WindowState {
            window: self.halved(),
            threshold: Some(self.halved()),
            phase: CongestionState::Recovery,
            reductions: self.reductions + 1,
            ..self
        }
    }

    /// Nothing arrived in time: the window collapses, and probing restarts.
    pub open spec fn timed_out(self) -> WindowState {
        WindowState {
            window: self.low(),
            threshold: Some(self.halved()),
            phase: CongestionState::SlowStart,
            reductions: self.reductions + 1,
            ..self
        }
    }

    /// What a signal makes of the window.
    pub open spec fn signalled(self, signal: CongestionSignal) -> WindowState {
        match signal {
            CongestionSignal::Clear => self,
            CongestionSignal::Queueing | CongestionSignal::Loss => self.congested(),
        }
    }

    /// The whole bytes of the window, as far as 64 bits hold them.
    pub open spec fn bytes(self) -> u64 {
        if self.window / PLACES as nat <= u64::MAX {
            (self.window / PLACES as nat) as u64
        } else {
            u64::MAX
        }
    }
}

/// Controls how many bytes may be outstanding.
///
/// It grows steadily while things are fine, and halves on a congestion signal.
/// The asymmetry is the point: probing upward should be gradual, but backing off
/// must be immediate, because the queue is already filling.
#[derive(Debug, Clone, Copy, PartialEq, Eq, Structural)]
pub struct CongestionWindow {
    window: u128,
    threshold: Option<u128>,
    segment: u64,
    state: CongestionState,
    reductions: u64,
}

impl View for CongestionWindow {
    type V = WindowState;

    closed spec fn view(&self) -> WindowState {
        WindowState {
            window: self.window as nat,
            threshold: match self.threshold {
                Some(t) => Some(t as nat),
                None => None,
            },
            segment: self.segment as nat,
            phase: self.state,
            reductions: self.reductions as nat,
        }
    }
}

impl CongestionWindow {
    #[verifier::type_invariant]
    spec fn within_bounds(self) -> bool {
        self@.wf()
    }

    /// Creates a window sized for `segment`-byte payloads, of one byte at least.
    ///
    /// Starts at ten segments: large enough that a short transfer completes in
    /// one round trip, small enough not to overwhelm a thin path.
    pub fn new(segment: u64) -> (w: CongestionWindow)
        ensures
            w@ == WindowState::initial(
                if segment == 0 {
                    1
                } else {
                    segment as nat
                },
            ),
            w@.wf(),
    {
        let segment: u64 = if segment == 0 {
            1
        } else {
            segment
        };
        CongestionWindow {
            window: 10 * (segment as u128) * PLACES,
            threshold: None,
            segment,
            state: CongestionState::SlowStart,
            reductions: 0,
        }
    }

    /// Returns the current window in bytes.
    pub fn bytes(&self) -> (n: u64)
        ensures
            n == self@.bytes(),
    {
        let whole: u128 = self.window / PLACES;
        if whole <= u64::MAX as u128 {
            whole as u64
        } else {
            u64::MAX
        }
    }

    /// Returns the current phase.
    pub fn state(&self) -> (s: CongestionState)
        ensures
            s == self@.phase,
    {
        self.state
    }

    /// Returns how many times the window has been reduced.
    pub fn reductions(&self) -> (n: u64)
        ensures
            n == self@.reductions,
    {
        self.reductions
    }

    /// Returns `true` if `len` more bytes may be sent with `in_flight`
    /// outstanding.
    pub fn can_send(&self, in_flight: u64, len: u64) -> (r: bool)
        ensures
            r == may_send(self@.bytes(), in_flight, len),
    {
        in_flight.saturating_add(len) <= self.bytes()
    }

    /// Returns how many more bytes may be sent right now.
    pub fn available(&self, in_flight: u64) -> (n: u64)
        ensures
            n == left(self@.bytes(), in_flight),
    {
        self.bytes().saturating_sub(in_flight)
    }

    /// Returns half the window, and no less than the smallest.
    fn half(&self) -> (size: u128)
        ensures
            size == self@.halved(),
    {
        proof {
            use_type_invariant(self);
        }
        let low: u128 = 2 * (self.segment as u128) * PLACES;
        if self.window / 2 < low {
            low
        } else {
            self.window / 2
        }
    }

    /// Returns the window after it grew by `growth` places.
    fn grown(&self, growth: u128) -> (size: u128)
        requires
            growth <= u64::MAX * PLACES,
        ensures
            size == self@.bounded((self@.window + growth) as nat),
    {
        proof {
            use_type_invariant(self);
        }
        let low: u128 = 2 * (self.segment as u128) * PLACES;
        let high: u128 = 10_000 * (self.segment as u128) * PLACES;
        let size: u128 = self.window + growth;
        if size < low {
            low
        } else if size > high {
            high
        } else {
            size
        }
    }

    /// Records `bytes` acknowledged, growing the window.
    ///
    /// In slow start the window grows by the amount acknowledged, doubling each
    /// round trip. In congestion avoidance it grows by roughly one segment per
    /// round trip, the additive increase.
    pub fn on_ack(&mut self, bytes: u64)
        ensures
            final(self)@ == old(self)@.acknowledged(bytes as nat),
            final(self)@.wf(),
    {
        proof {
            use_type_invariant(&*self);
        }
        if bytes == 0 {
            return;
        }
        match self.state {
            CongestionState::SlowStart => {
                let growth: u128 = (bytes as u128) * PLACES;
                let reached = match self.threshold {
                    Some(t) => self.window + growth >= t,
                    None => false,
                };
                let window: u128 = self.grown(growth);
                self.window = window;
                if reached {
                    self.state = CongestionState::CongestionAvoidance;
                }
            },
            CongestionState::CongestionAvoidance | CongestionState::Recovery => {
                proof {
                    growth_is_small(self@, bytes);
                }
                // One segment per window of bytes acknowledged.
                let growth: u128 = wide::shifted_quotient(
                    (self.segment as u128) * (bytes as u128),
                    self.window,
                );
                let window: u128 = self.grown(growth);
                self.window = window;
                self.state = CongestionState::CongestionAvoidance;
            },
        }
    }

    /// Reduces the window in response to congestion.
    ///
    /// Halving is deliberately aggressive: the queue is already building, and a
    /// gentle reduction would keep it building.
    pub fn on_congestion(&mut self)
        requires
            old(self)@.reductions < u64::MAX,
        ensures
            final(self)@ == old(self)@.congested(),
            final(self)@.wf(),
    {
        proof {
            use_type_invariant(&*self);
        }
        let half: u128 = self.half();
        self.threshold = Some(half);
        self.window = half;
        self.state = CongestionState::Recovery;
        self.reductions = self.reductions + 1;
    }

    /// Collapses the window after a timeout.
    ///
    /// A timeout is worse evidence than a single loss, since it suggests the path
    /// stopped delivering entirely, so the window returns to its minimum and
    /// probing restarts from scratch.
    pub fn on_timeout(&mut self)
        requires
            old(self)@.reductions < u64::MAX,
        ensures
            final(self)@ == old(self)@.timed_out(),
            final(self)@.wf(),
    {
        proof {
            use_type_invariant(&*self);
        }
        let half: u128 = self.half();
        self.threshold = Some(half);
        self.window = 2 * (self.segment as u128) * PLACES;
        self.state = CongestionState::SlowStart;
        self.reductions = self.reductions + 1;
    }

    /// Applies a congestion signal, choosing the appropriate response.
    pub fn apply(&mut self, signal: CongestionSignal)
        requires
            old(self)@.reductions < u64::MAX,
        ensures
            final(self)@ == old(self)@.signalled(signal),
    {
        match signal {
            CongestionSignal::Clear => {},
            // Queueing is an early warning, so back off before loss occurs.
            CongestionSignal::Queueing | CongestionSignal::Loss => self.on_congestion(),
        }
    }

    /// Resets to the initial window and slow start. Reductions stay counted.
    pub fn reset(&mut self)
        ensures
            final(self)@ == (WindowState {
                reductions: old(self)@.reductions,
                ..WindowState::initial(old(self)@.segment)
            }),
            final(self)@.wf(),
    {
        proof {
            use_type_invariant(&*self);
        }
        self.window = 10 * (self.segment as u128) * PLACES;
        self.threshold = None;
        self.state = CongestionState::SlowStart;
    }
}

impl Default for CongestionWindow {
    fn default() -> (w: CongestionWindow)
        ensures
            w@ == WindowState::initial(DEFAULT_SEGMENT as nat),
            w@.wf(),
    {
        CongestionWindow::new(DEFAULT_SEGMENT)
    }
}

/// Past slow start, an acknowledgement grows the window by less than what was
/// acknowledged.
proof fn growth_is_small(w: WindowState, bytes: u64)
    requires
        w.wf(),
        w.segment <= u64::MAX,
        w.phase !is SlowStart,
    ensures
        w.growth(bytes as nat) <= bytes * PLACES,
        w.segment * bytes < w.window * 0x1_0000_0000,
        w.segment * bytes <= u128::MAX,
        w.growth(bytes as nat) == w.segment * bytes * 0x1_0000_0000_0000_0000 / (w.window as int),
        w.window <= 0x4000_0000_0000_0000_0000_0000_0000,
{
    let (s, b, n) = (w.segment as int, bytes as int, w.window as int);
    assert(s * b <= 0xffff_ffff_ffff_ffff * 0xffff_ffff_ffff_ffff) by (nonlinear_arith)
        requires
            0 <= s <= 0xffff_ffff_ffff_ffff,
            0 <= b <= 0xffff_ffff_ffff_ffff,
    ;
    assert(s * b < n * 0x1_0000_0000) by (nonlinear_arith)
        requires
            2 * s * 0x1_0000_0000 <= n,
            0 <= b < 0x1_0000_0000_0000_0000,
            s > 0,
    ;
    assert(s * b * 0x1_0000_0000_0000_0000 / n <= b * 0x1_0000_0000) by (nonlinear_arith)
        requires
            2 * s * 0x1_0000_0000 <= n,
            b >= 0,
            s > 0,
    ;
}

/// Nothing takes a window out of its bounds.
pub proof fn windows_stay_within_bounds(w: WindowState, bytes: nat, signal: CongestionSignal)
    requires
        w.wf(),
    ensures
        w.acknowledged(bytes).wf(),
        w.signalled(signal).wf(),
        w.timed_out().wf(),
        WindowState::initial(w.segment).wf(),
{
}

/// Acknowledgements never shrink a window; congestion halves it, down to the
/// smallest, and a timeout leaves no more than that.
pub proof fn growth_is_gradual_and_backing_off_immediate(w: WindowState, bytes: nat)
    requires
        w.wf(),
    ensures
        w.acknowledged(bytes).window >= w.window,
        w.congested().window <= w.window,
        w.congested().window * 2 <= w.window || w.congested().window == w.low(),
        w.timed_out().window <= w.congested().window,
{
}

/// In slow start, a window of bytes acknowledged doubles the window, as far as it
/// may grow; past it, the same grows the window by one segment at most.
pub proof fn a_round_trip_doubles_or_adds_a_segment(w: WindowState, bytes: nat)
    requires
        w.wf(),
        bytes > 0,
        bytes * PLACES == w.window,
    ensures
        w.phase is SlowStart ==> w.acknowledged(bytes).window == w.bounded(2 * w.window),
        w.phase !is SlowStart ==> w.acknowledged(bytes).window == w.bounded(
            w.window + w.segment * PLACES as nat,
        ),
{
    let (s, b, n) = (w.segment as int, bytes as int, w.window as int);
    if w.phase !is SlowStart {
        assert(s * b * (PLACES * PLACES) == (s * PLACES) * n) by (nonlinear_arith)
            requires
                b * PLACES == n,
        ;
        vstd::arithmetic::div_mod::lemma_div_multiples_vanish(s * PLACES, n);
        assert((s * PLACES) * n == n * (s * PLACES)) by (nonlinear_arith);
    }
}

/// An early warning deserves the same response as a loss, and no signal none.
pub proof fn early_warnings_are_heeded(w: WindowState)
    ensures
        w.signalled(CongestionSignal::Queueing) == w.signalled(CongestionSignal::Loss),
        w.signalled(CongestionSignal::Loss) == w.congested(),
        w.signalled(CongestionSignal::Clear) == w,
{
}

/// `len` more bytes may be sent with `in_flight` outstanding. Sums beyond what 64
/// bits hold count as the largest number that they hold.
pub open spec fn may_send(window: u64, in_flight: u64, len: u64) -> bool {
    in_flight + len <= window || window == u64::MAX
}

/// The bytes that are left of a window.
pub open spec fn left(window: u64, in_flight: u64) -> u64 {
    if in_flight <= window {
        (window - in_flight) as u64
    } else {
        0
    }
}

/// What is left of a window is exactly what may still be sent.
pub proof fn what_is_left_may_be_sent(window: u64, in_flight: u64, len: u64)
    requires
        window < u64::MAX,
        in_flight <= window,
    ensures
        may_send(window, in_flight, len) == (len <= left(window, in_flight)),
{
}

/// What an acknowledgement does, in bytes: in slow start the window grows by
/// exactly what was acknowledged, and past it by a segment for each window of bytes
/// acknowledged, to the fraction of a byte below; either way up to ten thousand
/// segments. Slow start ends when the window reaches the threshold, and does not
/// come back. An empty acknowledgement does nothing.
pub proof fn acknowledgements_grow_the_window(w: WindowState, bytes: nat)
    requires
        w.wf(),
    ensures
        w.acknowledged(0) == w,
        bytes > 0 ==> ({
            let after = w.acknowledged(bytes);
            let high = 10_000 * w.segment * PLACES;
            let grown = after.window - w.window;
            &&& w.phase is SlowStart ==> after.window == high && w.window + bytes * PLACES >= high
                || grown == bytes * PLACES && after.window <= high
            &&& w.phase !is SlowStart ==> {
                ||| after.window == high && w.segment * bytes * (PLACES * PLACES) >= grown
                    * w.window
                ||| grown * w.window <= w.segment * bytes * (PLACES * PLACES) < (grown + 1)
                    * w.window
            }
            &&& after.phase is SlowStart <==> w.phase is SlowStart && (w.threshold matches Some(t)
                ==> w.window + bytes * PLACES < t)
            &&& after.phase !is Recovery
            &&& after.threshold == w.threshold && after.segment == w.segment
            &&& after.reductions == w.reductions
        }),
{
    if bytes > 0 && w.phase !is SlowStart {
        let (num, win) = (w.segment * bytes * (PLACES * PLACES) as nat, w.window as int);
        let growth = num / w.window;
        vstd::arithmetic::div_mod::lemma_fundamental_div_mod(num as int, win);
        assert(growth * win <= num < (growth + 1) * win) by (nonlinear_arith)
            requires
                num == win * growth + num as int % win,
                0 <= num as int % win < win,
        ;
        let grown = w.acknowledged(bytes).window - w.window;
        assert(grown * win <= growth * win) by (nonlinear_arith)
            requires
                grown <= growth,
                win > 0,
        ;
    }
}

/// What congestion does: the window is cut to a half, to the fraction of a byte
/// below, or to two segments where that is more; slow start, when it comes back,
/// will end there. A timeout remembers the same threshold, leaves two segments and
/// starts over. Both count as one reduction.
pub proof fn backing_off_halves_the_window(w: WindowState)
    requires
        w.wf(),
    ensures
        ({
            let after = w.congested();
            let least = 2 * w.segment * PLACES;
            &&& after.window >= least
            &&& after.window == least || w.window - 1 <= 2 * after.window <= w.window
            &&& after.window == least ==> 2 * least >= w.window - 1
            &&& after.threshold == Some(after.window)
            &&& after.phase is Recovery
            &&& after.reductions == w.reductions + 1 && after.segment == w.segment
        }),
        ({
            let after = w.timed_out();
            &&& after.window == 2 * w.segment * PLACES
            &&& after.threshold == w.congested().threshold
            &&& after.phase is SlowStart
            &&& after.reductions == w.reductions + 1 && after.segment == w.segment
        }),
{
}

/// A new window holds ten segments, probes, and knows no threshold; its size in
/// bytes is what its places make, to the byte below.
pub proof fn windows_start_at_ten_segments(segment: nat, w: WindowState)
    ensures
        WindowState::initial(segment).window == 10 * segment * PLACES,
        WindowState::initial(segment).threshold is None,
        WindowState::initial(segment).phase is SlowStart,
        WindowState::initial(segment).reductions == 0,
        WindowState::initial(segment).segment == segment,
        w.window < PLACES * 0x1_0000_0000_0000_0000 ==> w.bytes() * PLACES <= w.window < (w.bytes()
            + 1) * PLACES,
        w.window >= PLACES * 0x1_0000_0000_0000_0000 ==> w.bytes() == u64::MAX,
        w.wf() <==> w.segment > 0 && 2 * w.segment * PLACES <= w.window <= 10_000 * w.segment
            * PLACES && (w.threshold matches Some(t) ==> 2 * w.segment * PLACES <= t <= 10_000
            * w.segment * PLACES),
{
}

/// More may be sent exactly as long as it fits the window with what is in flight,
/// and what is available is the room that is left.
pub proof fn sending_is_limited_by_the_window(window: u64, in_flight: u64, len: u64)
    ensures
        window < u64::MAX ==> (may_send(window, in_flight, len) <==> in_flight + len <= window),
        in_flight <= window ==> in_flight + left(window, in_flight) == window,
        in_flight > window ==> left(window, in_flight) == 0,
{
}

/// What is known of a new path: nothing, but the threshold it is watched with, which is
/// a quarter above the floor unless another is asked for. Moving to another path keeps
/// that threshold and forgets the rest.
pub proof fn new_paths_are_unknown(p: PathState, threshold: Ratio)
    ensures
        ({
            let fresh = PathState::initial(threshold);
            &&& fresh.average is None && fresh.floor is None && fresh.signal is Clear
            &&& fresh.samples == 0 && fresh.queueing_events == 0 && fresh.loss_events == 0
            &&& fresh.threshold == threshold
        }),
        p.rerouted() == PathState::initial(p.threshold),
        4 * usual_threshold().numerator == 5 * usual_threshold().denominator,
        usual_threshold().wf(),
{
}

} // verus!
