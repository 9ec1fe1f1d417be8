//! Trend prediction and predictive scheduling.
//!
//! An estimator says what the network is doing now. [`TrendPredictor`] says which
//! way it is heading. A sender that knows bandwidth is collapsing can move work
//! earlier, before the queue builds. A sender that knows bandwidth is recovering
//! can wait a moment and send a large transfer into better conditions.
//!
//! The trend is the line that fits a bounded window of recent samples best, in
//! the sense of least squares. Deliberately simple: with a handful of noisy
//! samples, an elaborate model produces confident nonsense, and the confidence
//! figure is honest about how well the line actually fits. All of it is computed
//! exactly.

use crate::exact::{Fraction, Integer, Quotient};
use crate::optimizer::regression;
use crate::optimizer::regression::{Sample, Sums, Totals};
use crate::optimizer::window;
use crate::optimizer::window::{SampleWindow, DEFAULT_WINDOW, MIN_WINDOW};
use crate::time;
use crate::time::{Duration, Instant};
use vstd::prelude::*;

verus! {

/// The default forecast horizon, in seconds.
pub const DEFAULT_HORIZON_SECS: u64 = 5;

/// The direction a measurement is moving.
#[derive(Debug, Clone, Copy, PartialEq, Eq, Hash, Structural)]
#[non_exhaustive]
pub enum Trend {
    /// Conditions are getting better.
    Improving,
    /// No meaningful change.
    Stable,
    /// Conditions are getting worse.
    Degrading,
}

impl Trend {
    /// Returns `true` if conditions are worsening.
    pub fn is_degrading(self) -> (r: bool)
        ensures
            r == (self is Degrading),
    {
        match self {
            Trend::Degrading => true,
            _ => false,
        }
    }

    /// Returns `true` if conditions are improving.
    pub fn is_improving(self) -> (r: bool)
        ensures
            r == (self is Improving),
    {
        match self {
            Trend::Improving => true,
            _ => false,
        }
    }

    /// The trend in words.
    pub open spec fn text(self) -> Seq<char> {
        match self {
            Trend::Improving => "improving"@,
            Trend::Stable => "stable"@,
            Trend::Degrading => "degrading"@,
        }
    }

    /// Returns the trend in words.
    pub fn to_string(&self) -> (s: String)
        ensures
            s@ == self.text(),
    {
        match self {
            Trend::Improving => "improving".to_owned(),
            Trend::Stable => "stable".to_owned(),
            Trend::Degrading => "degrading".to_owned(),
        }
    }
}

/// Where a measurement is heading.
pub struct Outlook {
    /// The most recent value.
    pub current: int,
    /// The predicted value at the end of the horizon.
    pub predicted: Quotient,
    /// The direction of change.
    pub trend: Trend,
    /// How well the trend line fits the samples.
    pub confidence: Quotient,
    /// How far ahead the prediction reaches, in nanoseconds.
    pub horizon: nat,
    /// By how much the measurement changes in a second.
    pub slope: Quotient,
}

impl Outlook {
    /// The predicted change as a fraction of the current value: none where that
    /// is zero, since no proportion is defined.
    pub open spec fn relative_change(self) -> Quotient {
        let whole = self.current * self.predicted.denominator;
        let change = self.predicted.numerator - whole;
        if self.current == 0 {
            Quotient { numerator: 0, denominator: 1 }
        } else if self.current > 0 {
            Quotient { numerator: change, denominator: whole }
        } else {
            Quotient { numerator: -change, denominator: -whole }
        }
    }

    /// The forecast is worth acting on: the trend line explains half of the
    /// scatter, and the value changes by three twentieths.
    pub open spec fn actionable(self) -> bool {
        &&& self.confidence.at_least(1, 2)
        &&& self.relative_change().at_least(3, 20) || self.relative_change().at_most(-3, 20)
    }
}

/// A prediction of where a measurement is heading.
#[derive(Debug)]
#[non_exhaustive]
pub struct Forecast {
    /// The most recent observed value.
    pub current: i64,
    /// The predicted value at the end of the horizon.
    ///
    /// Never negative: a linear extrapolation can run below zero, which is
    /// meaningless for bandwidth.
    pub predicted: Fraction,
    /// The direction of change.
    pub trend: Trend,
    /// How well the trend line fits the samples, from nothing to one.
    ///
    /// This is the coefficient of determination. Low values mean the samples are
    /// noise around a level rather than a line, and the prediction should be
    /// discounted accordingly.
    pub confidence: Fraction,
    /// How far ahead the prediction reaches.
    pub horizon: Duration,
    /// Rate of change per second.
    pub slope_per_second: Fraction,
}

impl View for Forecast {
    type V = Outlook;

    open spec fn view(&self) -> Outlook {
        Outlook {
            current: self.current as int,
            predicted: self.predicted@,
            trend: self.trend,
            confidence: self.confidence@,
            horizon: self.horizon.nanos(),
            slope: self.slope_per_second@,
        }
    }
}

impl Forecast {
    /// The fractions are fractions.
    pub open spec fn wf(&self) -> bool {
        self.predicted.wf() && self.confidence.wf() && self.slope_per_second.wf()
    }

    /// Returns the predicted change as a fraction of the current value.
    ///
    /// Minus one half means a halving is expected. Nothing when the current value
    /// is zero, since no proportion is defined.
    pub fn relative_change(&self) -> (f: Fraction)
        ensures
            f@ == self@.relative_change(),
    {
        if self.current == 0 {
            return Fraction::new(Integer::zero(), Integer::from_u128(1));
        }
        let whole = Integer::from_i64(self.current).times(self.predicted.denominator());
        let change = self.predicted.numerator().minus(&whole);
        if self.current > 0 {
            Fraction::new(change, whole)
        } else {
            Fraction::new(change.negated(), whole.negated())
        }
    }

    /// Returns `true` if the forecast is worth acting on.
    ///
    /// Requires both a meaningful predicted change and a trend line that actually
    /// fits. Acting on a confident-looking prediction drawn through noise is worse
    /// than not predicting at all.
    pub fn is_actionable(&self) -> (r: bool)
        ensures
            r == self@.actionable(),
    {
        let change = self.relative_change();
        self.confidence.is_at_least(1, 2) && (change.is_at_least(3, 20) || change.is_at_most(
            -3,
            20,
        ))
    }
}

impl Clone for Forecast {
    fn clone(&self) -> (f: Forecast)
        ensures
            f@ == self@,
    {
        Forecast {
            current: self.current,
            predicted: self.predicted.clone(),
            trend: self.trend,
            confidence: self.confidence.clone(),
            horizon: self.horizon,
            slope_per_second: self.slope_per_second.clone(),
        }
    }
}

/// What a predictive scheduler suggests doing next.
#[derive(Debug, Clone, Copy, PartialEq, Eq, Hash, Structural)]
#[non_exhaustive]
pub enum SendAdvice {
    /// Send now at the current rate.
    SendNow,
    /// Send now, and prefer to send more while conditions are good.
    ///
    /// Returned when capacity is expected to fall: work moved earlier is work
    /// that avoids the worse conditions ahead.
    SendAggressively,
    /// Reduce the rate; conditions are deteriorating.
    Throttle,
    /// Hold non-urgent work briefly; conditions are expected to improve.
    Defer {
        /// How long to wait before reconsidering.
        delay: Duration,
    },
}

impl SendAdvice {
    /// Work should be sent now.
    pub open spec fn sends(self) -> bool {
        self is SendNow || self is SendAggressively
    }

    /// Returns `true` if work should be sent now.
    pub fn should_send(self) -> (r: bool)
        ensures
            r == self.sends(),
    {
        match self {
            SendAdvice::SendNow | SendAdvice::SendAggressively => true,
            _ => false,
        }
    }

    /// Returns the suggested delay, if any.
    pub fn delay(self) -> (d: Option<Duration>)
        ensures
            d == match self {
                SendAdvice::Defer { delay } => Some(delay),
                _ => None,
            },
    {
        match self {
            SendAdvice::Defer { delay } => Some(delay),
            _ => None,
        }
    }
}

/// The advice fits the outlook: without one worth acting on, work is sent as
/// usual; where capacity is disappearing, it is moved earlier; and where
/// conditions improve, work that is not urgent waits for half the horizon.
pub open spec fn advised(outlook: Option<Outlook>, urgent: bool, advice: SendAdvice) -> bool {
    match outlook {
        None => advice is SendNow,
        Some(o) => if !o.actionable() {
            advice is SendNow
        } else {
            match o.trend {
                Trend::Degrading => advice is SendAggressively,
                Trend::Improving => if urgent {
                    advice is SendNow
                } else {
                    advice matches SendAdvice::Defer { delay } && delay.nanos() == o.horizon / 2
                },
                Trend::Stable => advice is SendNow,
            }
        },
    }
}

/// Where a measurement is heading, if there is a forecast.
pub open spec fn outlook_of(forecast: Option<&Forecast>) -> Option<Outlook> {
    match forecast {
        Some(f) => Some(f@),
        None => None,
    }
}

/// Turns a forecast into scheduling advice.
///
/// `urgent` work is never deferred: predicting better conditions shortly is no
/// reason to delay a heartbeat or a user-visible request. Only bulk traffic is
/// worth holding.
pub fn advise_send(forecast: Option<&Forecast>, urgent: bool) -> (advice: SendAdvice)
    ensures
        advised(outlook_of(forecast), urgent, advice),
{
    match forecast {
        None => SendAdvice::SendNow,
        Some(o) => {
            if !o.is_actionable() {
                return SendAdvice::SendNow;
            }
            match o.trend {
                // Capacity is disappearing: move what we can while it exists.
                Trend::Degrading => SendAdvice::SendAggressively,
                Trend::Improving => {
                    if urgent {
                        SendAdvice::SendNow
                    } else {
                        SendAdvice::Defer { delay: o.horizon.half() }
                    }
                },
                Trend::Stable => SendAdvice::SendNow,
            }
        },
    }
}

/// The advice fits the outlook on a link that may be congested.
pub open spec fn advised_under_congestion(
    outlook: Option<Outlook>,
    urgent: bool,
    congested: bool,
    advice: SendAdvice,
) -> bool {
    if congested && !urgent {
        advice is Throttle
    } else {
        advised(outlook, urgent, advice)
    }
}

/// Returns advice for a link that may also be showing congestion.
///
/// Congestion overrides the forecast: a filling queue is a present fact, while a
/// trend is an inference about the future.
pub fn advise_send_under_congestion(
    forecast: Option<&Forecast>,
    urgent: bool,
    congested: bool,
) -> (advice: SendAdvice)
    ensures
        advised_under_congestion(outlook_of(forecast), urgent, congested, advice),
{
    if congested && !urgent {
        return SendAdvice::Throttle;
    }
    advise_send(forecast, urgent)
}

/// Urgent work is never deferred or throttled, whatever the outlook.
pub proof fn urgent_work_is_sent(outlook: Option<Outlook>, congested: bool, advice: SendAdvice)
    requires
        advised_under_congestion(outlook, true, congested, advice),
    ensures
        advice.sends(),
{
}

/// Congestion throttles all other work, whatever the outlook.
pub proof fn congestion_overrides_the_outlook(outlook: Option<Outlook>, advice: SendAdvice)
    requires
        advised_under_congestion(outlook, false, true, advice),
    ensures
        advice is Throttle,
{
}

/// What is known of a measurement.
pub struct History {
    /// The samples retained, oldest first.
    pub samples: Seq<Sample>,
    /// How many samples are retained at most.
    pub capacity: nat,
    /// How far ahead forecasts reach, in nanoseconds.
    pub horizon: nat,
    /// When the first sample was taken.
    pub origin: Option<Instant>,
}

impl History {
    /// One measurement more, taken at `now`.
    pub open spec fn after(self, value: i64, now: Instant) -> History {
        let origin = match self.origin {
            Some(origin) => origin,
            None => now,
        };
        let sample = Sample { nanos: time::since(now, origin) as u128, value };
        History {
            samples: window::latest(self.samples.push(sample), self.capacity),
            origin: Some(origin),
            ..self
        }
    }

    /// A line can be drawn: there are enough samples, at more than one instant.
    pub open spec fn has_line(self) -> bool {
        self.samples.len() >= MIN_WINDOW && !Sums::of(self.samples).at_one_instant()
    }

    /// Where the measurement is heading, as of `now`.
    pub open spec fn outlook(self, now: Instant) -> Outlook {
        let sums = Sums::of(self.samples);
        Outlook {
            current: self.samples.last().value as int,
            predicted: sums.predicted((time::since(now, self.origin->0) + self.horizon) as int),
            trend: sums.trend(),
            confidence: sums.confidence(),
            horizon: self.horizon,
            slope: sums.slope(),
        }
    }
}

/// Predicts where a measurement is heading from its recent history.
#[derive(Debug)]
pub struct TrendPredictor {
    samples: SampleWindow<Sample>,
    horizon: Duration,
    origin: Option<Instant>,
}

impl View for TrendPredictor {
    type V = History;

    closed spec fn view(&self) -> History {
        History {
            samples: self.samples.retained(),
            capacity: self.samples.limit(),
            horizon: self.horizon.nanos(),
            origin: self.origin,
        }
    }
}

impl TrendPredictor {
    /// The window is in order, and what it retains was taken since the first
    /// measurement.
    pub closed spec fn wf(&self) -> bool {
        &&& self.samples.wf()
        &&& self.samples.retained().len() > 0 ==> self.origin is Some
    }

    /// Creates a predictor with the default window and horizon.
    pub fn new() -> (p: TrendPredictor)
        ensures
            p.wf(),
            p@ == (History {
                samples: Seq::empty(),
                capacity: DEFAULT_WINDOW as nat,
                horizon: (DEFAULT_HORIZON_SECS * 1_000_000_000) as nat,
                origin: None,
            }),
    {
        TrendPredictor {
            samples: SampleWindow::new(),
            horizon: Duration::from_secs(DEFAULT_HORIZON_SECS),
            origin: None,
        }
    }

    /// Sets how many samples are retained.
    ///
    /// Fewer than three cannot describe a line, so the window is floored there.
    pub fn with_window(self, window: usize) -> (p: TrendPredictor)
        requires
            self.wf(),
        ensures
            p.wf(),
            p@ == ({
                let capacity = if window < MIN_WINDOW {
                    MIN_WINDOW as nat
                } else {
                    window as nat
                };
                History { samples: window::latest(self@.samples, capacity), capacity, ..self@ }
            }),
    {
        TrendPredictor {
            samples: self.samples.with_window(window),
            horizon: self.horizon,
            origin: self.origin,
        }
    }

    /// Sets how far ahead forecasts reach.
    pub fn with_horizon(self, horizon: Duration) -> (p: TrendPredictor)
        requires
            self.wf(),
        ensures
            p.wf(),
            p@ == (History { horizon: horizon.nanos(), ..self@ }),
    {
        TrendPredictor { samples: self.samples, horizon, origin: self.origin }
    }

    /// Records a measurement taken at `now`.
    pub fn record(&mut self, value: i64, now: Instant)
        requires
            old(self).wf(),
        ensures
            final(self).wf(),
            final(self)@ == old(self)@.after(value, now),
    {
        let origin = match self.origin {
            Some(origin) => origin,
            None => now,
        };
        self.origin = Some(origin);
        let elapsed = now.saturating_duration_since(origin);
        self.samples.record(Sample { nanos: elapsed.as_nanos(), value });
    }

    /// Returns how many samples are retained.
    pub fn len(&self) -> (n: usize)
        ensures
            n == self@.samples.len(),
    {
        self.samples.len()
    }

    /// Returns `true` if nothing has been recorded.
    pub fn is_empty(&self) -> (r: bool)
        ensures
            r == (self@.samples.len() == 0),
    {
        self.samples.is_empty()
    }

    /// Returns how many samples are retained at most.
    pub fn capacity(&self) -> (n: usize)
        ensures
            n == self@.capacity,
    {
        self.samples.capacity()
    }

    /// Returns the most recent value.
    pub fn current(&self) -> (v: Option<i64>)
        ensures
            v == if self@.samples.len() > 0 {
                Some(self@.samples.last().value)
            } else {
                None
            },
    {
        match self.samples.last() {
            Some(sample) => Some(sample.value),
            None => None,
        }
    }

    /// Returns the trend direction alone.
    pub fn trend(&self, now: Instant) -> (t: Trend)
        requires
            self.wf(),
        ensures
            t == if self@.has_line() {
                self@.outlook(now).trend
            } else {
                Trend::Stable
            },
    {
        match self.forecast(now) {
            Some(forecast) => forecast.trend,
            None => Trend::Stable,
        }
    }

    /// Returns a forecast as of `now`, if enough samples exist.
    ///
    /// There is none with fewer than three samples: two points always fit a line
    /// perfectly, which would report full confidence in a trend drawn through
    /// nothing. Nor is there one where every sample landed at the same instant, so
    /// that no slope is defined.
    pub fn forecast(&self, now: Instant) -> (r: Option<Forecast>)
        requires
            self.wf(),
        ensures
            match r {
                Some(f) => self@.has_line() && f@ == self@.outlook(now) && f.wf(),
                None => !self@.has_line(),
            },
    {
        if !self.samples.shows_a_trend() {
            return None;
        }
        let totals = Totals::of(&self.samples);
        if totals.at_one_instant() {
            return None;
        }
        match (self.current(), self.origin) {
            (Some(current), Some(origin)) => {
                let elapsed: u128 = now.saturating_duration_since(origin).as_nanos();
                proof {
                    regression::sums_count(self.samples.retained());
                    regression::lines_fit_within_bounds(self.samples.retained());
                }
                Some(
                    Forecast {
                        current,
                        predicted: totals.predicted(elapsed + self.horizon.as_nanos()),
                        trend: totals.trend(),
                        confidence: totals.confidence(),
                        horizon: self.horizon,
                        slope_per_second: totals.slope(),
                    },
                )
            },
            _ => None,
        }
    }

    /// Discards all history.
    pub fn reset(&mut self)
        requires
            old(self).wf(),
        ensures
            final(self).wf(),
            final(self)@ == (History { samples: Seq::empty(), origin: None, ..old(self)@ }),
    {
        self.samples.reset();
        self.origin = None;
    }
}

impl Clone for TrendPredictor {
    fn clone(&self) -> (p: TrendPredictor)
        ensures
            p@ == self@,
            self.wf() ==> p.wf(),
    {
        TrendPredictor {
            samples: self.samples.clone(),
            horizon: self.horizon,
            origin: self.origin,
        }
    }
}

impl Default for TrendPredictor {
    fn default() -> (p: TrendPredictor)
        ensures
            p.wf(),
            p@ == (History {
                samples: Seq::empty(),
                capacity: DEFAULT_WINDOW as nat,
                horizon: (DEFAULT_HORIZON_SECS * 1_000_000_000) as nat,
                origin: None,
            }),
    {
        TrendPredictor::new()
    }
}

/// Times are counted from the first measurement, the latest measurement is the last
/// one retained, and those before it are retained as far as there is room.
pub proof fn measurements_are_retained_in_order(h: History, value: i64, now: Instant)
    requires
        h.capacity >= 3,
        h.samples.len() <= h.capacity,
    ensures
        ({
            let after = h.after(value, now);
            let kept = after.samples.drop_last();
            let origin = after.origin->0;
            &&& after.origin is Some
            &&& h.origin is None ==> origin == now
            &&& h.origin is Some ==> after.origin == h.origin
            &&& after.samples.last().value == value
            &&& origin.nanos() <= now.nanos() && now.nanos() - origin.nanos() <= time::MAX_NANOS
                ==> after.samples.last().nanos == now.nanos() - origin.nanos()
            &&& h.samples.len() < h.capacity ==> kept == h.samples
            &&& h.samples.len() == h.capacity ==> kept == h.samples.drop_first()
            &&& after.capacity == h.capacity && after.horizon == h.horizon
        }),
{
    let after = h.after(value, now);
    if h.samples.len() < h.capacity {
        assert(after.samples.drop_last() =~= h.samples);
    } else {
        assert(after.samples.drop_last() =~= h.samples.drop_first());
    }
}

/// A measurement that moves along a straight line is predicted to go on along it: at
/// the end of the horizon, counted from `now`, or at zero where the line runs below.
pub proof fn straight_lines_are_continued(
    h: History,
    now: Instant,
    rise: int,
    run: int,
    base: int,
)
    requires
        run > 0,
        h.has_line(),
        h.origin is Some,
        forall|i: int|
            0 <= i < h.samples.len() ==> run * (#[trigger] h.samples[i]).value == rise
                * h.samples[i].nanos + base,
    ensures
        ({
            let at = time::since(now, h.origin->0) + h.horizon;
            let o = h.outlook(now);
            &&& o.current == h.samples.last().value
            &&& o.horizon == h.horizon
            &&& o.predicted.denominator > 0 && o.slope.denominator > 0
            &&& rise * at + base >= 0 ==> o.predicted.numerator * run == o.predicted.denominator
                * (rise * at + base)
            &&& rise * at + base < 0 ==> o.predicted.numerator == 0
            &&& o.slope.numerator * run == o.slope.denominator * (rise * 1_000_000_000)
            &&& o.confidence.numerator == o.confidence.denominator
        }),
{
    let s = Sums::of(h.samples);
    let at = time::since(now, h.origin->0) + h.horizon;
    regression::sums_count(h.samples);
    regression::lines_fit_within_bounds(h.samples);
    regression::straight_lines_are_found(h.samples, rise, run, base);
    let (line, d, v) = (s.line_at(at as int), s.n * s.spread(), rise * at + base);
    assert(line * run == d * v);
    assert(d > 0) by (nonlinear_arith)
        requires
            d == s.n * s.spread(),
            s.n > 0,
            s.spread() > 0,
    ;
    assert(v >= 0 ==> line >= 0) by (nonlinear_arith)
        requires
            line * run == d * v,
            d > 0,
            run > 0,
    ;
    assert(v < 0 ==> line < 0) by (nonlinear_arith)
        requires
            line * run == d * v,
            d > 0,
            run > 0,
    ;
    let (j, a) = (s.joint(), s.spread());
    assert(j * 1_000_000_000 * run == a * (rise * 1_000_000_000)) by (nonlinear_arith)
        requires
            j * run == rise * a,
    ;
    assert(s.scatter() * a == a * s.scatter()) by (nonlinear_arith);
}

/// There is a line once three samples are in that were not taken all at once.
pub proof fn lines_need_three_samples(h: History)
    ensures
        h.has_line() <==> h.samples.len() >= 3 && !Sums::of(h.samples).at_one_instant(),
        h.has_line() ==> Sums::of(h.samples).spread() > 0,
{
    if h.has_line() {
        regression::lines_fit_within_bounds(h.samples);
    }
}

/// The relative change is the predicted change over the current value, and a
/// forecast is worth acting on where the line explains half of the scatter and that
/// change is fifteen percent or more, up or down.
pub proof fn changes_are_relative_to_now(o: Outlook)
    requires
        o.predicted.denominator > 0,
        o.confidence.denominator > 0,
    ensures
        o.relative_change().denominator > 0,
        o.current == 0 ==> o.relative_change().numerator == 0,
        o.current != 0 ==> o.relative_change().numerator * (o.current * o.predicted.denominator)
            == (o.predicted.numerator - o.current * o.predicted.denominator)
            * o.relative_change().denominator,
        o.actionable() <==> 2 * o.confidence.numerator >= o.confidence.denominator && (20
            * o.relative_change().numerator >= 3 * o.relative_change().denominator || 20
            * o.relative_change().numerator <= -3 * o.relative_change().denominator),
{
    let (c, d) = (o.current, o.predicted.denominator);
    let whole = c * d;
    let change = o.predicted.numerator - whole;
    assert(c > 0 ==> whole > 0) by (nonlinear_arith)
        requires
            whole == c * d,
            d > 0,
    ;
    assert(c < 0 ==> whole < 0) by (nonlinear_arith)
        requires
            whole == c * d,
            d > 0,
    ;
    assert((-change) * whole == change * (-whole)) by (nonlinear_arith);
}

/// What the outlook makes of work: without one to act on it is sent as usual, with
/// capacity falling it is moved earlier, and with capacity rising it waits half the
/// horizon unless it is urgent. Congestion alone makes work that is not urgent slow
/// down.
pub proof fn advice_follows_the_outlook(
    outlook: Option<Outlook>,
    urgent: bool,
    congested: bool,
    advice: SendAdvice,
)
    requires
        advised_under_congestion(outlook, urgent, congested, advice),
    ensures
        advice is Throttle <==> congested && !urgent,
        advice is SendAggressively <==> (urgent || !congested) && outlook is Some
            && outlook->0.actionable() && outlook->0.trend is Degrading,
        advice is Defer <==> !urgent && !congested && outlook is Some && outlook->0.actionable()
            && outlook->0.trend is Improving,
        advice matches SendAdvice::Defer { delay } ==> 2 * delay.nanos() <= outlook->0.horizon < 2
            * delay.nanos() + 2,
        advice.sends() <==> advice is SendNow || advice is SendAggressively,
{
}

} // verus!
