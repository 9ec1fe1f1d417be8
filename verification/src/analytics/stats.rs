//! Throughput metering and per-connection statistics.
//!
//! Everything that depends on the time takes it as an argument, or reads a clock
//! that starts at the instant that the meter starts with, and does what the
//! function that takes the time does.

use crate::analytics::histogram;
use crate::analytics::histogram::{DistributionSummary, Histogram, Tally};
use crate::rate;
use crate::rate::Rate;
use crate::ratio::Ratio;
use crate::smoothing;
use crate::time;
use crate::time::{Clock, Duration, Instant};
use vstd::prelude::*;

verus! {

/// A fifth, the share of the distance that a sample moves a throughput by.
pub open spec fn fifth() -> Ratio {
    Ratio { numerator: 1, denominator: 5 }
}

/// The default smoothing factor for throughput samples.
pub fn default_smoothing() -> (r: Ratio)
    ensures
        r == fifth(),
        smoothing::is_share(r),
{
    Ratio::new(1, 5)
}

/// What is known of a throughput.
pub struct Throughput {
    /// The average rate, in the units of a rate.
    pub rate: Option<nat>,
    /// The share of the distance that a sample moves the average by.
    pub share: Ratio,
    /// The highest rate, in the units of a rate.
    pub peak: nat,
    /// The bytes transferred.
    pub total_bytes: nat,
    /// How many transfers there were.
    pub samples: nat,
    /// When metering began.
    pub started_at: Instant,
    /// When the last transfer was recorded.
    pub last_sample_at: Instant,
}

impl Throughput {
    /// Metering begins.
    pub open spec fn starting(now: Instant, share: Ratio) -> Throughput {
        Throughput {
            rate: None,
            share,
            peak: 0,
            total_bytes: 0,
            samples: 0,
            started_at: now,
            last_sample_at: now,
        }
    }

    /// Another transfer can be counted.
    pub open spec fn can_count(self, bytes: u64) -> bool {
        self.total_bytes + bytes <= u64::MAX && self.samples < u64::MAX
    }

    /// One transfer of `bytes` more, which took the time since the previous one.
    /// Where that is no time, or nothing was transferred, it has no rate.
    pub open spec fn plus(self, bytes: u64, now: Instant) -> Throughput {
        let nanos = time::since(now, self.last_sample_at);
        let sample = rate::rate_of(bytes as nat, nanos);
        let counted = Throughput {
            total_bytes: self.total_bytes + bytes as nat,
            samples: self.samples + 1,
            last_sample_at: now,
            ..self
        };
        if nanos == 0 || bytes == 0 {
            counted
        } else {
            Throughput {
                rate: Some(smoothing::averaged(self.rate, sample, self.share)),
                peak: if sample > self.peak {
                    sample
                } else {
                    self.peak
                },
                ..counted
            }
        }
    }

    /// The average rate since metering began, in the units of a rate.
    pub open spec fn average(self, now: Instant) -> nat {
        let nanos = time::since(now, self.started_at);
        if nanos == 0 {
            0
        } else {
            rate::rate_of(self.total_bytes, nanos)
        }
    }
}

/// Measures throughput in bytes per second.
///
/// Reports both a smoothed rate, which is what to act on, and a lifetime average,
/// which describes the connection as a whole. The two differ during a
/// transition, and that difference is the signal worth watching.
#[derive(Debug, Clone, Copy)]
pub struct RateMeter {
    smoothed: Option<Rate>,
    smoothing: Ratio,
    peak: Rate,
    total_bytes: u64,
    started_at: Instant,
    last_sample_at: Instant,
    samples: u64,
    clock: Clock,
}

impl View for RateMeter {
    type V = Throughput;

    closed spec fn view(&self) -> Throughput {
        Throughput {
            rate: rate::units_of(self.smoothed),
            share: self.smoothing,
            peak: self.peak@,
            total_bytes: self.total_bytes as nat,
            samples: self.samples as nat,
            started_at: self.started_at,
            last_sample_at: self.last_sample_at,
        }
    }
}

impl RateMeter {
    #[verifier::type_invariant]
    spec fn smooths(self) -> bool {
        smoothing::is_share(self.smoothing)
    }

    /// When the meter was made, on its own clock.
    pub closed spec fn made_at(&self) -> Instant {
        self.clock.first()
    }

    /// Creates a meter starting now.
    pub fn new() -> (m: RateMeter)
        ensures
            m.made_at().nanos() == 0,
            exists|now: Instant|
                now.nanos() >= m.made_at().nanos() && m@ == #[trigger] Throughput::starting(
                    now,
                    fifth(),
                ),
    {
        let clock = Clock::start();
        let now = clock.now();
        let m = RateMeter::starting(now, clock);
        assert(m@ == Throughput::starting(now, fifth()));
        m
    }

    /// Creates a meter with an explicit starting instant.
    pub fn new_at(now: Instant) -> (m: RateMeter)
        ensures
            m.made_at() == now,
            m@ == Throughput::starting(now, fifth()),
    {
        RateMeter::starting(now, Clock::start_at(now))
    }

    fn starting(now: Instant, clock: Clock) -> (m: RateMeter)
        ensures
            m.made_at() == clock.first(),
            m@ == Throughput::starting(now, fifth()),
    {
        RateMeter {
            smoothed: None,
            smoothing: default_smoothing(),
            peak: Rate::zero(),
            total_bytes: 0,
            started_at: now,
            last_sample_at: now,
            samples: 0,
            clock,
        }
    }

    /// Sets the smoothing factor, at least a hundredth and at most one.
    pub fn with_smoothing(self, smoothing: Ratio) -> (m: RateMeter)
        requires
            smoothing.wf(),
        ensures
            m.made_at() == self.made_at(),
            m@ == (Throughput { share: smoothing::effective(smoothing), ..self@ }),
    {
        RateMeter { smoothing: smoothing::within_bounds(smoothing), ..self }
    }

    /// Records `bytes` transferred as of now.
    pub fn record(&mut self, bytes: u64)
        requires
            old(self)@.can_count(bytes),
        ensures
            final(self).made_at() == old(self).made_at(),
            exists|now: Instant|
                now.nanos() >= old(self).made_at().nanos() && final(self)@ == #[trigger] old(
                    self,
                )@.plus(bytes, now),
    {
        let now = self.clock.now();
        self.record_at(bytes, now);
    }

    /// Records `bytes` transferred as of `now`.
    ///
    /// The interval is measured from the previous sample. A zero interval is
    /// counted toward the total but contributes no rate, since dividing by it
    /// would imply infinite throughput.
    pub fn record_at(&mut self, bytes: u64, now: Instant)
        requires
            old(self)@.can_count(bytes),
        ensures
            final(self).made_at() == old(self).made_at(),
            final(self)@ == old(self)@.plus(bytes, now),
    {
        proof {
            use_type_invariant(&*self);
        }
        let elapsed = now.saturating_duration_since(self.last_sample_at);
        self.total_bytes = self.total_bytes + bytes;
        self.samples = self.samples + 1;
        self.last_sample_at = now;
        if elapsed.is_zero() || bytes == 0 {
            return;
        }
        let rate = Rate::of(bytes, elapsed);
        self.peak = self.peak.faster(rate);
        self.smoothed = Some(Rate::averaged(self.smoothed, rate, self.smoothing));
    }

    /// Returns the smoothed throughput, if any sample produced a rate.
    pub fn bytes_per_second(&self) -> (r: Option<Rate>)
        ensures
            rate::units_of(r) == self@.rate,
    {
        self.smoothed
    }

    /// Returns the highest instantaneous rate observed.
    pub fn peak_bytes_per_second(&self) -> (r: Rate)
        ensures
            r@ == self@.peak,
    {
        self.peak
    }

    /// Returns the total bytes recorded.
    pub fn total_bytes(&self) -> (n: u64)
        ensures
            n == self@.total_bytes,
    {
        self.total_bytes
    }

    /// Returns how many samples were recorded.
    pub fn samples(&self) -> (n: u64)
        ensures
            n == self@.samples,
    {
        self.samples
    }

    /// Returns the average throughput over the whole lifetime of the meter.
    pub fn average_bytes_per_second(&self, now: Instant) -> (r: Rate)
        ensures
            r@ == self@.average(now),
    {
        let uptime = self.uptime(now);
        if uptime.is_zero() {
            Rate::zero()
        } else {
            Rate::of(self.total_bytes, uptime)
        }
    }

    /// Returns how long the meter has been running.
    pub fn uptime(&self, now: Instant) -> (d: Duration)
        ensures
            d.nanos() == time::since(now, self@.started_at),
    {
        now.saturating_duration_since(self.started_at)
    }

    /// Discards all history, restarting from `now`.
    pub fn reset(&mut self, now: Instant)
        ensures
            final(self).made_at() == old(self).made_at(),
            final(self)@ == Throughput::starting(now, old(self)@.share),
    {
        proof {
            use_type_invariant(&*self);
        }
        self.smoothed = None;
        self.peak = Rate::zero();
        self.total_bytes = 0;
        self.started_at = now;
        self.last_sample_at = now;
        self.samples = 0;
    }
}

impl Default for RateMeter {
    fn default() -> (m: RateMeter)
        ensures
            m.made_at().nanos() == 0,
            exists|now: Instant|
                now.nanos() >= m.made_at().nanos() && m@ == #[trigger] Throughput::starting(
                    now,
                    fifth(),
                ),
    {
        RateMeter::new()
    }
}

/// Every byte counts toward the total, whether or not its transfer has a rate;
/// and the first transfer with a rate is the estimate.
pub proof fn every_byte_is_counted(t: Throughput, bytes: u64, now: Instant)
    ensures
        t.plus(bytes, now).total_bytes == t.total_bytes + bytes,
        t.plus(bytes, now).samples == t.samples + 1,
        time::since(now, t.last_sample_at) == 0 || bytes == 0 ==> t.plus(bytes, now).rate
            == t.rate && t.plus(bytes, now).peak == t.peak,
        t.rate is None && time::since(now, t.last_sample_at) > 0 && bytes > 0 ==> t.plus(
            bytes,
            now,
        ).rate == Some(rate::rate_of(bytes as nat, time::since(now, t.last_sample_at))),
{
}

/// The average never exceeds the peak.
pub proof fn averages_stay_below_the_peak(t: Throughput, bytes: u64, now: Instant)
    requires
        smoothing::is_share(t.share),
        t.rate matches Some(r) ==> r <= t.peak,
    ensures
        t.plus(bytes, now).rate matches Some(r) ==> r <= t.plus(bytes, now).peak,
{
    let nanos = time::since(now, t.last_sample_at);
    if let Some(current) = t.rate {
        smoothing::averages_stay_within_their_samples(
            current,
            rate::rate_of(bytes as nat, nanos),
            t.share,
        );
    }
}

/// A point-in-time view of one connection.
#[derive(Debug, Clone, Copy, PartialEq, Eq)]
#[non_exhaustive]
pub struct ConnectionSnapshot {
    /// Bytes sent.
    pub bytes_sent: u64,
    /// Bytes received.
    pub bytes_received: u64,
    /// Frames sent.
    pub frames_sent: u64,
    /// Frames received.
    pub frames_received: u64,
    /// Errors observed.
    pub errors: u64,
    /// Packets known to have been lost.
    pub packets_lost: u64,
    /// How long the connection has been open.
    pub uptime: Duration,
    /// The round-trip time distribution.
    pub rtt: DistributionSummary,
    /// The inter-arrival jitter distribution.
    pub jitter: DistributionSummary,
}

impl ConnectionSnapshot {
    /// Returns the total bytes moved in both directions.
    pub fn total_bytes(&self) -> (n: u64)
        requires
            self.bytes_sent + self.bytes_received <= u64::MAX,
        ensures
            n == self.bytes_sent + self.bytes_received,
    {
        self.bytes_sent + self.bytes_received
    }

    /// Returns the fraction of packets lost: none when nothing has been sent.
    pub fn loss_ratio(&self) -> (r: Ratio)
        requires
            self.frames_sent + self.packets_lost <= u64::MAX,
        ensures
            r == Ratio::share(
                self.packets_lost as nat,
                (self.frames_sent + self.packets_lost) as nat,
            ),
    {
        Ratio::of(self.packets_lost, self.frames_sent + self.packets_lost)
    }

    /// Returns the mean payload size of sent frames: nothing when nothing has
    /// been sent.
    ///
    /// A value far below the configured payload target suggests traffic is being
    /// fragmented needlessly.
    pub fn mean_frame_size(&self) -> (r: Ratio)
        ensures
            r == Ratio::share(self.bytes_sent as nat, self.frames_sent as nat),
    {
        Ratio::of(self.bytes_sent, self.frames_sent)
    }

    /// Returns `true` if any error has been recorded.
    pub fn has_errors(&self) -> (r: bool)
        ensures
            r == (self.errors > 0),
    {
        self.errors > 0
    }
}

impl Default for ConnectionSnapshot {
    fn default() -> (s: ConnectionSnapshot)
        ensures
            s.bytes_sent == 0 && s.bytes_received == 0,
            s.frames_sent == 0 && s.frames_received == 0,
            s.errors == 0 && s.packets_lost == 0,
            s.uptime.nanos() == 0,
            s.rtt.count == 0 && s.jitter.count == 0,
            s.rtt.min is None && s.rtt.max is None && s.rtt.mean is None,
            s.rtt.p50 is None && s.rtt.p90 is None && s.rtt.p99 is None,
            s.jitter.min is None && s.jitter.max is None && s.jitter.mean is None,
            s.jitter.p50 is None && s.jitter.p90 is None && s.jitter.p99 is None,
    {
        ConnectionSnapshot {
            bytes_sent: 0,
            bytes_received: 0,
            frames_sent: 0,
            frames_received: 0,
            errors: 0,
            packets_lost: 0,
            uptime: Duration::zero(),
            rtt: DistributionSummary::default(),
            jitter: DistributionSummary::default(),
        }
    }
}

/// What is known of one connection.
pub struct Traffic {
    /// What was sent; every transfer is one frame.
    pub sent: Throughput,
    /// What was received; every transfer is one frame.
    pub received: Throughput,
    /// Errors observed.
    pub errors: u64,
    /// Packets known to have been lost.
    pub packets_lost: u64,
    /// The round-trip times.
    pub rtt: Tally,
    /// How much consecutive round-trip times differ.
    pub jitter: Tally,
    /// The previous round-trip time.
    pub last_rtt: Option<nat>,
    /// When the connection was opened.
    pub started_at: Instant,
}

impl Traffic {
    /// Nothing happened yet.
    pub open spec fn starting(now: Instant) -> Traffic {
        Traffic {
            sent: Throughput::starting(now, fifth()),
            received: Throughput::starting(now, fifth()),
            errors: 0,
            packets_lost: 0,
            rtt: Tally::empty(),
            jitter: Tally::empty(),
            last_rtt: None,
            started_at: now,
        }
    }

    /// One round-trip time more. Jitter takes a pair, so the first gives none.
    pub open spec fn measured(self, rtt: nat) -> Traffic {
        Traffic {
            rtt: self.rtt.plus(rtt),
            jitter: match self.last_rtt {
                Some(previous) => self.jitter.plus(distance(rtt, previous)),
                None => self.jitter,
            },
            last_rtt: Some(rtt),
            ..self
        }
    }
}

/// How far apart two lengths are.
pub open spec fn distance(a: nat, b: nat) -> nat {
    if a >= b {
        (a - b) as nat
    } else {
        (b - a) as nat
    }
}

/// Collects statistics for a single connection.
#[derive(Debug)]
pub struct ConnectionStats {
    send_rate: RateMeter,
    receive_rate: RateMeter,
    errors: u64,
    packets_lost: u64,
    rtt: Histogram,
    jitter: Histogram,
    last_rtt: Option<Duration>,
    started_at: Instant,
    clock: Clock,
}

impl View for ConnectionStats {
    type V = Traffic;

    closed spec fn view(&self) -> Traffic {
        Traffic {
            sent: self.send_rate@,
            received: self.receive_rate@,
            errors: self.errors,
            packets_lost: self.packets_lost,
            rtt: self.rtt@,
            jitter: self.jitter@,
            last_rtt: match self.last_rtt {
                Some(d) => Some(d.nanos()),
                None => None,
            },
            started_at: self.started_at,
        }
    }
}

impl ConnectionStats {
    /// Both distributions are in order, and there is a previous round-trip time
    /// exactly if one was measured.
    pub closed spec fn wf(&self) -> bool {
        &&& self.rtt.wf()
        &&& self.jitter.wf()
        &&& (self.last_rtt is Some) == (self.rtt@.count > 0)
        &&& self.jitter@.count <= self.rtt@.count
    }

    /// When the record was made, on its own clock.
    pub closed spec fn made_at(&self) -> Instant {
        self.clock.first()
    }

    /// Creates statistics starting now.
    pub fn new() -> (s: ConnectionStats)
        ensures
            s.wf(),
            s.made_at().nanos() == 0,
            exists|now: Instant|
                now.nanos() >= s.made_at().nanos() && s@ == #[trigger] Traffic::starting(now),
    {
        let clock = Clock::start();
        let now = clock.now();
        let s = ConnectionStats::starting(now, clock);
        assert(s@ == Traffic::starting(now));
        s
    }

    /// Creates statistics with an explicit starting instant.
    pub fn new_at(now: Instant) -> (s: ConnectionStats)
        ensures
            s.wf(),
            s.made_at() == now,
            s@ == Traffic::starting(now),
    {
        ConnectionStats::starting(now, Clock::start_at(now))
    }

    fn starting(now: Instant, clock: Clock) -> (s: ConnectionStats)
        ensures
            s.wf(),
            s.made_at() == clock.first(),
            s@ == Traffic::starting(now),
    {
        ConnectionStats {
            send_rate: RateMeter::new_at(now),
            receive_rate: RateMeter::new_at(now),
            errors: 0,
            packets_lost: 0,
            rtt: Histogram::new(),
            jitter: Histogram::new(),
            last_rtt: None,
            started_at: now,
            clock,
        }
    }

    /// Records a frame of `bytes` sent.
    pub fn record_sent(&mut self, bytes: u64)
        requires
            old(self).wf(),
            old(self)@.sent.can_count(bytes),
        ensures
            final(self).made_at() == old(self).made_at(),
            final(self).wf(),
            exists|now: Instant|
                now.nanos() >= old(self).made_at().nanos() && final(self)@ == (Traffic {
                    sent: #[trigger] old(self)@.sent.plus(bytes, now),
                    ..old(self)@
                }),
    {
        let now = self.clock.now();
        self.record_sent_at(bytes, now);
    }

    /// Records a frame of `bytes` sent as of `now`.
    pub fn record_sent_at(&mut self, bytes: u64, now: Instant)
        requires
            old(self).wf(),
            old(self)@.sent.can_count(bytes),
        ensures
            final(self).made_at() == old(self).made_at(),
            final(self).wf(),
            final(self)@ == (Traffic { sent: old(self)@.sent.plus(bytes, now), ..old(self)@ }),
    {
        self.send_rate.record_at(bytes, now);
    }

    /// Records a frame of `bytes` received.
    pub fn record_received(&mut self, bytes: u64)
        requires
            old(self).wf(),
            old(self)@.received.can_count(bytes),
        ensures
            final(self).made_at() == old(self).made_at(),
            final(self).wf(),
            exists|now: Instant|
                now.nanos() >= old(self).made_at().nanos() && final(self)@ == (Traffic {
                    received: #[trigger] old(self)@.received.plus(bytes, now),
                    ..old(self)@
                }),
    {
        let now = self.clock.now();
        self.record_received_at(bytes, now);
    }

    /// Records a frame of `bytes` received as of `now`.
    pub fn record_received_at(&mut self, bytes: u64, now: Instant)
        requires
            old(self).wf(),
            old(self)@.received.can_count(bytes),
        ensures
            final(self).made_at() == old(self).made_at(),
            final(self).wf(),
            final(self)@ == (Traffic {
                received: old(self)@.received.plus(bytes, now),
                ..old(self)@
            }),
    {
        self.receive_rate.record_at(bytes, now);
    }

    /// Records a round-trip time measurement.
    ///
    /// Jitter is derived from consecutive measurements, so it becomes available
    /// from the second sample onward.
    pub fn record_rtt(&mut self, rtt: Duration)
        requires
            old(self).wf(),
            old(self)@.rtt.count < u64::MAX,
        ensures
            final(self).made_at() == old(self).made_at(),
            final(self).wf(),
            final(self)@ == old(self)@.measured(rtt.nanos()),
    {
        self.rtt.record(rtt);
        match self.last_rtt {
            Some(previous) => {
                self.jitter.record(rtt.abs_diff(previous));
            },
            None => {},
        }
        self.last_rtt = Some(rtt);
    }

    /// Records an error.
    pub fn record_error(&mut self)
        requires
            old(self).wf(),
            old(self)@.errors < u64::MAX,
        ensures
            final(self).made_at() == old(self).made_at(),
            final(self).wf(),
            final(self)@ == (Traffic { errors: (old(self)@.errors + 1) as u64, ..old(self)@ }),
    {
        self.errors = self.errors + 1;
    }

    /// Records `count` lost packets.
    pub fn record_lost(&mut self, count: u64)
        requires
            old(self).wf(),
            old(self)@.packets_lost + count <= u64::MAX,
        ensures
            final(self).made_at() == old(self).made_at(),
            final(self).wf(),
            final(self)@ == (Traffic {
                packets_lost: (old(self)@.packets_lost + count) as u64,
                ..old(self)@
            }),
    {
        self.packets_lost = self.packets_lost + count;
    }

    /// Returns the send-side throughput meter.
    pub fn send_rate(&self) -> (m: &RateMeter)
        ensures
            m@ == self@.sent,
    {
        &self.send_rate
    }

    /// Returns the receive-side throughput meter.
    pub fn receive_rate(&self) -> (m: &RateMeter)
        ensures
            m@ == self@.received,
    {
        &self.receive_rate
    }

    /// Returns the round-trip time distribution.
    pub fn rtt(&self) -> (h: &Histogram)
        requires
            self.wf(),
        ensures
            h@ == self@.rtt,
            h.wf(),
    {
        &self.rtt
    }

    /// Returns the jitter distribution.
    pub fn jitter(&self) -> (h: &Histogram)
        requires
            self.wf(),
        ensures
            h@ == self@.jitter,
            h.wf(),
    {
        &self.jitter
    }

    /// Returns a snapshot as of `now`.
    pub fn snapshot(&self, now: Instant) -> (s: ConnectionSnapshot)
        requires
            self.wf(),
        ensures
            s.bytes_sent == self@.sent.total_bytes,
            s.bytes_received == self@.received.total_bytes,
            s.frames_sent == self@.sent.samples,
            s.frames_received == self@.received.samples,
            s.errors == self@.errors,
            s.packets_lost == self@.packets_lost,
            s.uptime.nanos() == time::since(now, self@.started_at),
            s.rtt.summarises(self@.rtt),
            s.jitter.summarises(self@.jitter),
    {
        ConnectionSnapshot {
            bytes_sent: self.send_rate.total_bytes,
            bytes_received: self.receive_rate.total_bytes,
            frames_sent: self.send_rate.samples,
            frames_received: self.receive_rate.samples,
            errors: self.errors,
            packets_lost: self.packets_lost,
            uptime: now.saturating_duration_since(self.started_at),
            rtt: self.rtt.summary(),
            jitter: self.jitter.summary(),
        }
    }
}

impl Clone for ConnectionStats {
    fn clone(&self) -> (s: ConnectionStats)
        ensures
            s@ == self@,
            self.wf() ==> s.wf(),
    {
        ConnectionStats {
            send_rate: self.send_rate,
            receive_rate: self.receive_rate,
            errors: self.errors,
            packets_lost: self.packets_lost,
            rtt: self.rtt.clone(),
            jitter: self.jitter.clone(),
            last_rtt: self.last_rtt,
            started_at: self.started_at,
            clock: self.clock,
        }
    }
}

impl Default for ConnectionStats {
    fn default() -> (s: ConnectionStats)
        ensures
            s.wf(),
            s.made_at().nanos() == 0,
            exists|now: Instant|
                now.nanos() >= s.made_at().nanos() && s@ == #[trigger] Traffic::starting(now),
    {
        ConnectionStats::new()
    }
}

/// The state after the given round-trip times.
pub open spec fn measured_all(t: Traffic, rtts: Seq<nat>) -> Traffic
    decreases rtts.len(),
{
    if rtts.len() == 0 {
        t
    } else {
        measured_all(t, rtts.drop_last()).measured(rtts.last())
    }
}

/// How much consecutive round-trip times differ.
pub open spec fn differences(rtts: Seq<nat>) -> Seq<nat> {
    Seq::new(
        if rtts.len() == 0 {
            0
        } else {
            (rtts.len() - 1) as nat
        },
        |i: int| distance(rtts[i + 1], rtts[i]),
    )
}

/// Jitter is the distribution of the differences between consecutive round-trip
/// times: one fewer than there are measurements.
pub proof fn jitter_is_the_spread_of_consecutive_times(now: Instant, rtts: Seq<nat>)
    ensures
        measured_all(Traffic::starting(now), rtts).rtt == histogram::tally_of(rtts),
        measured_all(Traffic::starting(now), rtts).jitter == histogram::tally_of(
            differences(rtts),
        ),
        rtts.len() > 0 ==> measured_all(Traffic::starting(now), rtts).last_rtt == Some(
            rtts.last(),
        ),
    decreases rtts.len(),
{
    if rtts.len() > 0 {
        let rest = rtts.drop_last();
        jitter_is_the_spread_of_consecutive_times(now, rest);
        if rest.len() > 0 {
            assert(differences(rtts).drop_last() =~= differences(rest));
            assert(differences(rtts).last() == distance(rtts.last(), rest.last()));
        } else {
            assert(differences(rtts) =~= Seq::<nat>::empty());
        }
    } else {
        assert(differences(rtts) =~= Seq::<nat>::empty());
    }
}

/// What a transfer changes: it is timed from the one before, the first from the start.
/// Where it took time and moved something, its rate moves the average by its share,
/// and is the peak where no earlier one was as high.
pub proof fn one_transfer_moves_the_rate(t: Throughput, bytes: u64, now: Instant, nanos: nat)
    requires
        t.last_sample_at.nanos() + nanos == now.nanos(),
        0 < nanos <= time::MAX_NANOS,
        bytes > 0,
    ensures
        ({
            let after = t.plus(bytes, now);
            let sample = rate::rate_of(bytes as nat, nanos);
            &&& after.rate == Some(smoothing::averaged(t.rate, sample, t.share))
            &&& after.peak >= t.peak && after.peak >= sample
            &&& after.peak == t.peak || after.peak == sample
            &&& after.last_sample_at == now && after.started_at == t.started_at
            &&& after.share == t.share
        }),
{
}

/// Over its whole time a meter averages all bytes since the start, and metering
/// begins with none, at the point it begins at.
pub proof fn lifetime_averages_cover_everything(
    t: Throughput,
    now: Instant,
    nanos: nat,
    share: Ratio,
)
    requires
        t.started_at.nanos() + nanos == now.nanos(),
        nanos <= time::MAX_NANOS,
    ensures
        nanos > 0 ==> t.average(now) == rate::rate_of(t.total_bytes, nanos),
        nanos == 0 ==> t.average(now) == 0,
        ({
            let fresh = Throughput::starting(now, share);
            &&& fresh.rate is None && fresh.peak == 0
            &&& fresh.total_bytes == 0 && fresh.samples == 0
            &&& fresh.started_at == now && fresh.last_sample_at == now && fresh.share == share
        }),
        5 * fifth().numerator == fifth().denominator && fifth().numerator > 0,
{
}

/// A round-trip time is one measurement more, and what it differs by from the one
/// before, either way, is one measurement of jitter more. Nothing else changes.
pub proof fn one_round_trip_is_measured(t: Traffic, rtt: nat, gap: nat)
    ensures
        t.measured(rtt).rtt == t.rtt.plus(rtt),
        t.measured(rtt).last_rtt == Some(rtt),
        t.last_rtt is None ==> t.measured(rtt).jitter == t.jitter,
        t.last_rtt is Some && (t.last_rtt->0 + gap == rtt || rtt + gap == t.last_rtt->0)
            ==> t.measured(rtt).jitter == t.jitter.plus(gap),
        t.measured(rtt).sent == t.sent && t.measured(rtt).received == t.received,
        t.measured(rtt).errors == t.errors && t.measured(rtt).packets_lost == t.packets_lost,
        t.measured(rtt).started_at == t.started_at,
{
}

/// A connection starts with nothing sent, received, lost or measured.
pub proof fn connections_start_from_nothing(now: Instant)
    ensures
        ({
            let t = Traffic::starting(now);
            &&& t.sent.total_bytes == 0 && t.received.total_bytes == 0
            &&& t.sent.samples == 0 && t.received.samples == 0
            &&& t.sent.started_at == now && t.received.started_at == now
            &&& t.sent.rate is None && t.received.rate is None
            &&& t.errors == 0 && t.packets_lost == 0
            &&& t.rtt.count == 0 && t.jitter.count == 0
            &&& t.last_rtt is None && t.started_at == now
        }),
{
}

} // verus!
