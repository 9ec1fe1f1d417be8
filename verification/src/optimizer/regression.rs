//! The line that fits samples best, in the sense of least squares.
//!
//! Everything is kept in sums of whole numbers, so that no rounding comes between
//! the samples and what is said of them.

use crate::exact::{Fraction, Integer, Quotient};
use crate::optimizer::predict::Trend;
use crate::optimizer::window::SampleWindow;
use vstd::prelude::*;

verus! {

/// A measurement, and when it was taken.
#[derive(Debug, Clone, Copy, PartialEq, Eq, Structural)]
pub struct Sample {
    /// The nanoseconds since the first measurement.
    pub nanos: u128,
    /// What was measured.
    pub value: i64,
}

/// The sums that a line through samples is drawn from. Times are in nanoseconds.
pub struct Sums {
    /// How many samples there are.
    pub n: int,
    /// The sum of the times.
    pub x: int,
    /// The sum of the values.
    pub y: int,
    /// The sum of the squared times.
    pub xx: int,
    /// The sum of the products of time and value.
    pub xy: int,
    /// The sum of the squared values.
    pub yy: int,
}

impl Sums {
    /// One sample more.
    pub open spec fn plus(self, s: Sample) -> Sums {
        Sums {
            n: self.n + 1,
            x: self.x + s.nanos,
            y: self.y + s.value,
            xx: self.xx + s.nanos * s.nanos,
            xy: self.xy + s.nanos * s.value,
            yy: self.yy + s.value * s.value,
        }
    }

    /// The sums over all samples.
    pub open spec fn of(samples: Seq<Sample>) -> Sums
        decreases samples.len(),
    {
        if samples.len() == 0 {
            Sums { n: 0, x: 0, y: 0, xx: 0, xy: 0, yy: 0 }
        } else {
            Sums::of(samples.drop_last()).plus(samples.last())
        }
    }

    /// How far the times scatter: their variance, times the square of `n`.
    pub open spec fn spread(self) -> int {
        self.n * self.xx - self.x * self.x
    }

    /// How times and values scatter together: their covariance, times the square
    /// of `n`.
    pub open spec fn joint(self) -> int {
        self.n * self.xy - self.x * self.y
    }

    /// How far the values scatter: their variance, times the square of `n`.
    pub open spec fn scatter(self) -> int {
        self.n * self.yy - self.y * self.y
    }

    /// Times that scatter by less than 2^-52 square seconds count as one instant,
    /// through which no line is drawn.
    pub open spec fn at_one_instant(self) -> bool {
        self.spread() * 0x10_0000_0000_0000 < self.n * 1_000_000_000_000_000_000
    }

    /// By how much the line rises in a second.
    pub open spec fn slope(self) -> Quotient {
        Quotient { numerator: self.joint() * 1_000_000_000, denominator: self.spread() }
    }

    /// The value of the line at a time, in parts of `n` times the spread.
    pub open spec fn line_at(self, nanos: int) -> int {
        self.n * self.joint() * nanos + (self.spread() * self.y - self.joint() * self.x)
    }

    /// The value of the line at a time, and zero where it runs below: negative
    /// bandwidth is meaningless.
    pub open spec fn predicted(self, nanos: int) -> Quotient {
        Quotient {
            numerator: if self.line_at(nanos) > 0 {
                self.line_at(nanos)
            } else {
                0
            },
            denominator: self.n * self.spread(),
        }
    }

    /// How well the line fits: the coefficient of determination. Where all values
    /// are alike, a flat line fits perfectly.
    pub open spec fn confidence(self) -> Quotient {
        if self.scatter() == 0 {
            Quotient { numerator: 1, denominator: 1 }
        } else {
            Quotient {
                numerator: self.joint() * self.joint(),
                denominator: self.spread() * self.scatter(),
            }
        }
    }

    /// The direction of the line: it has one where it rises or falls by more than
    /// a fiftieth of the mean value in a second. Both sides are multiplied by the
    /// spread and by the square of the sum of values.
    pub open spec fn trend(self) -> Trend {
        let change = 50_000_000_000 * (self.n * self.joint() * self.y);
        let level = self.spread() * (self.y * self.y);
        if change > level {
            Trend::Improving
        } else if change < -level {
            Trend::Degrading
        } else {
            Trend::Stable
        }
    }
}

/// The sums that a line is drawn from, computed.
pub struct Totals {
    n: Integer,
    x: Integer,
    y: Integer,
    xx: Integer,
    xy: Integer,
    yy: Integer,
}

impl Totals {
    /// The sums.
    pub closed spec fn sums(&self) -> Sums {
        Sums {
            n: self.n@,
            x: self.x@,
            y: self.y@,
            xx: self.xx@,
            xy: self.xy@,
            yy: self.yy@,
        }
    }

    /// Returns the sums over the samples of a window.
    pub fn of(window: &SampleWindow<Sample>) -> (t: Totals)
        ensures
            t.sums() == Sums::of(window.retained()),
    {
        let mut t = Totals {
            n: Integer::zero(),
            x: Integer::zero(),
            y: Integer::zero(),
            xx: Integer::zero(),
            xy: Integer::zero(),
            yy: Integer::zero(),
        };
        let one = Integer::from_u128(1);
        let mut i: usize = 0;
        let ghost all = window.retained();
        assert(all.take(0) =~= Seq::<Sample>::empty());
        while i < window.len()
            invariant
                all == window.retained(),
                i <= all.len(),
                one@ == 1,
                t.sums() == Sums::of(all.take(i as int)),
            decreases all.len() - i,
        {
            let sample = window.at(i);
            let x = Integer::from_u128(sample.nanos);
            let y = Integer::from_i64(sample.value);
            let next = Totals {
                n: t.n.plus(&one),
                x: t.x.plus(&x),
                y: t.y.plus(&y),
                xx: t.xx.plus(&x.times(&x)),
                xy: t.xy.plus(&x.times(&y)),
                yy: t.yy.plus(&y.times(&y)),
            };
            t = next;
            i += 1;
            proof {
                assert(all.take(i as int).drop_last() =~= all.take(i - 1));
                assert(all.take(i as int).last() == sample);
            }
        }
        assert(all.take(i as int) =~= all);
        t
    }

    /// Returns how far the times scatter.
    pub fn spread(&self) -> (r: Integer)
        ensures
            r@ == self.sums().spread(),
    {
        self.n.times(&self.xx).minus(&self.x.times(&self.x))
    }

    /// Returns how times and values scatter together.
    pub fn joint(&self) -> (r: Integer)
        ensures
            r@ == self.sums().joint(),
    {
        self.n.times(&self.xy).minus(&self.x.times(&self.y))
    }

    /// Returns how far the values scatter.
    pub fn scatter(&self) -> (r: Integer)
        ensures
            r@ == self.sums().scatter(),
    {
        self.n.times(&self.yy).minus(&self.y.times(&self.y))
    }

    /// Returns `true` when no line can be drawn.
    pub fn at_one_instant(&self) -> (r: bool)
        ensures
            r == self.sums().at_one_instant(),
    {
        let spread = self.spread().times(&Integer::from_u128(0x10_0000_0000_0000));
        let least = self.n.times(&Integer::from_u128(1_000_000_000_000_000_000));
        !spread.is_at_least(&least)
    }

    /// Returns by how much the line rises in a second.
    pub fn slope(&self) -> (f: Fraction)
        ensures
            f@ == self.sums().slope(),
    {
        Fraction::new(
            self.joint().times(&Integer::from_u128(1_000_000_000)),
            self.spread(),
        )
    }

    /// Returns the value of the line at a time, and zero where it runs below.
    pub fn predicted(&self, nanos: u128) -> (f: Fraction)
        ensures
            f@ == self.sums().predicted(nanos as int),
    {
        let spread = self.spread();
        let joint = self.joint();
        let risen = self.n.times(&joint).times(&Integer::from_u128(nanos));
        let value = risen.plus(&spread.times(&self.y).minus(&joint.times(&self.x)));
        // A linear extrapolation happily runs below zero, which is meaningless
        // for a rate.
        let numerator = if value.is_positive() {
            value
        } else {
            Integer::zero()
        };
        Fraction::new(numerator, self.n.times(&spread))
    }

    /// Returns how well the line fits.
    pub fn confidence(&self) -> (f: Fraction)
        ensures
            f@ == self.sums().confidence(),
    {
        let scatter = self.scatter();
        if scatter.is_zero() {
            // Every sample identical: a flat line fits perfectly.
            return Fraction::new(Integer::from_u128(1), Integer::from_u128(1));
        }
        let joint = self.joint();
        Fraction::new(joint.times(&joint), self.spread().times(&scatter))
    }

    /// Returns the direction of the line.
    pub fn trend(&self) -> (t: Trend)
        ensures
            t == self.sums().trend(),
    {
        let change = Integer::from_u128(50_000_000_000).times(
            &self.n.times(&self.joint()).times(&self.y),
        );
        let level = self.spread().times(&self.y.times(&self.y));
        if !level.is_at_least(&change) {
            Trend::Improving
        } else if !change.is_at_least(&level.negated()) {
            Trend::Degrading
        } else {
            Trend::Stable
        }
    }
}

/// The count is the number of samples.
pub proof fn sums_count(samples: Seq<Sample>)
    ensures
        Sums::of(samples).n == samples.len(),
    decreases samples.len(),
{
    if samples.len() > 0 {
        sums_count(samples.drop_last());
    }
}

/// The sum of the squared distances between `p` times each value and a line that
/// rises by `q` from `k`.
pub open spec fn residuals(samples: Seq<Sample>, p: int, q: int, k: int) -> int
    decreases samples.len(),
{
    if samples.len() == 0 {
        0
    } else {
        let s = samples.last();
        residuals(samples.drop_last(), p, q, k) + (p * s.value - q * s.nanos - k) * (p * s.value - q
            * s.nanos - k)
    }
}

proof fn squares_expand(p: int, q: int, k: int, x: int, y: int)
    ensures
        (p * y - q * x - k) * (p * y - q * x - k) == p * p * (y * y) - 2 * (p * q * (x * y)) + q * q
            * (x * x) - 2 * (p * k * y) + 2 * (q * k * x) + k * k,
{
    let (u, v) = (p * y, q * x);
    three_terms_squared(u, v, k);
    product_of_squares(p, y);
    product_of_squares(q, x);
    assert((p * y) * (q * x) == p * q * (x * y)) by (nonlinear_arith);
    assert((p * y) * k == p * k * y) by (nonlinear_arith);
    assert((q * x) * k == q * k * x) by (nonlinear_arith);
}

proof fn three_terms_squared(u: int, v: int, k: int)
    by (nonlinear_arith)
    ensures
        (u - v - k) * (u - v - k) == u * u - 2 * (u * v) + v * v - 2 * (u * k) + 2 * (v * k) + k * k,
{
}

proof fn product_of_squares(p: int, y: int)
    by (nonlinear_arith)
    ensures
        (p * y) * (p * y) == p * p * (y * y),
{
}

proof fn residuals_expand(samples: Seq<Sample>, p: int, q: int, k: int)
    ensures
        ({
            let s = Sums::of(samples);
            residuals(samples, p, q, k) == p * p * s.yy - 2 * (p * q * s.xy) + q * q * s.xx - 2 * (p
                * k * s.y) + 2 * (q * k * s.x) + s.n * k * k
        }),
        residuals(samples, p, q, k) >= 0,
    decreases samples.len(),
{
    if samples.len() == 0 {
        assert(p * p * 0 == 0 && p * q * 0 == 0 && q * q * 0 == 0 && p * k * 0 == 0 && q * k * 0
            == 0 && 0 * k * k == 0) by (nonlinear_arith);
    } else {
        let rest = samples.drop_last();
        residuals_expand(rest, p, q, k);
        let s = Sums::of(rest);
        let (x, y) = (samples.last().nanos as int, samples.last().value as int);
        let d = p * y - q * x - k;
        assert(d * d >= 0) by (nonlinear_arith);
        squares_expand(p, q, k, x, y);
        assert(p * p * (s.yy + y * y) == p * p * s.yy + p * p * (y * y)) by (nonlinear_arith);
        assert(p * q * (s.xy + x * y) == p * q * s.xy + p * q * (x * y)) by (nonlinear_arith);
        assert(q * q * (s.xx + x * x) == q * q * s.xx + q * q * (x * x)) by (nonlinear_arith);
        assert(p * k * (s.y + y) == p * k * s.y + p * k * y) by (nonlinear_arith);
        assert(q * k * (s.x + x) == q * k * s.x + q * k * x) by (nonlinear_arith);
        assert((s.n + 1) * k * k == s.n * k * k + k * k) by (nonlinear_arith);
    }
}

proof fn offsets_cancel(n: int, a: int, c: int, k: int, x: int, y: int)
    requires
        k == a * y - c * x,
    ensures
        n * a * k * y - n * c * k * x == n * k * k,
{
    let (u, v) = (a * y, c * x);
    assert(n * a * k * y == n * k * (a * y)) by (nonlinear_arith);
    assert(n * c * k * x == n * k * (c * x)) by (nonlinear_arith);
    assert(n * k * u - n * k * v == n * k * (u - v)) by (nonlinear_arith);
}

/// What a line leaves unexplained is the rest of what it explains: the squared
/// distances of the samples from the line that fits them best, in parts of the
/// square of `n` times the spread, make up what is missing to full confidence.
pub proof fn confidence_is_the_share_explained(samples: Seq<Sample>)
    ensures
        ({
            let s = Sums::of(samples);
            residuals(
                samples,
                s.n * s.spread(),
                s.n * s.joint(),
                s.spread() * s.y - s.joint() * s.x,
            ) == s.n * s.spread() * (s.spread() * s.scatter() - s.joint() * s.joint())
        }),
{
    let s = Sums::of(samples);
    let (n, x, y) = (s.n, s.x, s.y);
    let (a, c, d) = (s.spread(), s.joint(), s.scatter());
    let (p, q, k) = (n * a, n * c, a * y - c * x);
    residuals_expand(samples, p, q, k);
    offsets_cancel(n, a, c, k, x, y);
    let (xx, xy, yy) = (s.xx, s.xy, s.yy);
    assert(p * p * yy == n * (a * a * (n * yy))) by (nonlinear_arith)
        requires
            p == n * a,
    ;
    assert(q * q * xx == n * (c * c * (n * xx))) by (nonlinear_arith)
        requires
            q == n * c,
    ;
    assert(p * q * xy == n * (a * c * (n * xy))) by (nonlinear_arith)
        requires
            p == n * a,
            q == n * c,
    ;
    squares_expand(a, c, 0, x, y);
    let (e, f, g) = (a * a * (y * y), a * c * (x * y), c * c * (x * x));
    assert(k * k == e - 2 * f + g) by {
        assert(a * 0 * y == 0 && c * 0 * x == 0) by (nonlinear_arith);
    }
    assert(n * (e - 2 * f + g) == n * e + n * g - 2 * (n * f)) by (nonlinear_arith);
    assert(n * (k * k) == n * k * k) by (nonlinear_arith);
    assert(n * (a * a * (n * yy)) - n * (a * a * (y * y)) == n * (a * a * d)) by (nonlinear_arith)
        requires
            d == n * yy - y * y,
    ;
    assert(n * (c * c * (n * xx)) - n * (c * c * (x * x)) == n * (c * c * a)) by (nonlinear_arith)
        requires
            a == n * xx - x * x,
    ;
    assert(n * (a * c * (n * xy)) - n * (a * c * (x * y)) == n * (a * c * c)) by (nonlinear_arith)
        requires
            c == n * xy - x * y,
    ;
    assert(n * (a * a * d) + n * (c * c * a) - 2 * (n * (a * c * c)) == n * a * (a * d - c * c))
        by (nonlinear_arith);
}

/// Where a line can be drawn, its confidence lies between nothing and one, and
/// its prediction is never negative.
pub proof fn lines_fit_within_bounds(samples: Seq<Sample>)
    requires
        samples.len() > 0,
        !Sums::of(samples).at_one_instant(),
    ensures
        Sums::of(samples).spread() > 0,
        Sums::of(samples).slope().denominator > 0,
        Sums::of(samples).confidence().denominator > 0,
        Sums::of(samples).confidence().at_least(0, 1),
        Sums::of(samples).confidence().at_most(1, 1),
        forall|nanos: int|
            #![trigger Sums::of(samples).predicted(nanos)]
            Sums::of(samples).predicted(nanos).denominator > 0 && Sums::of(samples).predicted(
                nanos,
            ).at_least(0, 1),
{
    let s = Sums::of(samples);
    sums_count(samples);
    let (n, a, c, d) = (s.n, s.spread(), s.joint(), s.scatter());
    assert(a > 0);
    let (p, q, k) = (n * a, n * c, a * s.y - c * s.x);
    residuals_expand(samples, p, q, k);
    confidence_is_the_share_explained(samples);
    assert(n * a > 0) by (nonlinear_arith)
        requires
            n > 0,
            a > 0,
    ;
    let rest = a * d - c * c;
    assert(rest >= 0) by (nonlinear_arith)
        requires
            n * a * rest >= 0,
            n * a > 0,
    ;
    assert(c * c >= 0) by (nonlinear_arith);
    assert(d >= 0) by (nonlinear_arith)
        requires
            a * d >= 0,
            a > 0,
    ;
    if d != 0 {
        assert(a * d > 0) by (nonlinear_arith)
            requires
                a > 0,
                d > 0,
        ;
    }
}

/// Samples that lie on a line are fitted by that line, with full confidence.
pub proof fn straight_lines_are_found(samples: Seq<Sample>, rise: int, run: int, base: int)
    requires
        run > 0,
        forall|i: int|
            0 <= i < samples.len() ==> run * (#[trigger] samples[i]).value == rise
                * samples[i].nanos + base,
    ensures
        Sums::of(samples).joint() * run == rise * Sums::of(samples).spread(),
        Sums::of(samples).scatter() * Sums::of(samples).spread() == Sums::of(samples).joint()
            * Sums::of(samples).joint(),
        forall|nanos: int|
            #![trigger Sums::of(samples).line_at(nanos)]
            Sums::of(samples).line_at(nanos) * run == Sums::of(samples).n * Sums::of(
                samples,
            ).spread() * (rise * nanos + base),
{
    let s = Sums::of(samples);
    line_sums(samples, rise, run, base);
    let (n, x, y, xx, xy, yy) = (s.n, s.x, s.y, s.xx, s.xy, s.yy);
    let (a, c, d) = (s.spread(), s.joint(), s.scatter());
    assert((n * xy - x * y) * run == n * (run * xy) - x * (run * y)) by (nonlinear_arith);
    assert(n * (rise * xx + base * x) - x * (rise * x + n * base) == rise * (n * xx - x * x))
        by (nonlinear_arith);
    assert((n * yy - y * y) * run == n * (run * yy) - y * (run * y)) by (nonlinear_arith);
    assert(n * (rise * xy + base * y) - y * (rise * x + n * base) == rise * (n * xy - x * y))
        by (nonlinear_arith);
    assert(d * a * run == a * (d * run)) by (nonlinear_arith);
    assert(a * (rise * c) == c * (rise * a)) by (nonlinear_arith);
    assert(c * (c * run) == c * c * run) by (nonlinear_arith);
    assert(d * a == c * c) by (nonlinear_arith)
        requires
            d * a * run == c * c * run,
            run > 0,
    ;
    assert forall|nanos: int| #![trigger s.line_at(nanos)] s.line_at(nanos) * run == n * a * (rise
        * nanos + base) by {
        let (e, f, g) = (n * c * nanos, a * y, c * x);
        assert((e + (f - g)) * run == e * run + f * run - g * run) by (nonlinear_arith);
        assert(n * c * nanos * run == n * nanos * (c * run)) by (nonlinear_arith);
        assert(a * y * run == a * (run * y)) by (nonlinear_arith);
        assert(c * x * run == x * (c * run)) by (nonlinear_arith);
        assert(a * (rise * x + n * base) == x * (rise * a) + n * a * base) by (nonlinear_arith);
        assert(n * nanos * (rise * a) == n * a * (rise * nanos)) by (nonlinear_arith);
        let h = rise * nanos;
        assert(n * a * (h + base) == n * a * h + n * a * base) by (nonlinear_arith);
    }
}

proof fn line_sums(samples: Seq<Sample>, rise: int, run: int, base: int)
    requires
        forall|i: int|
            0 <= i < samples.len() ==> run * (#[trigger] samples[i]).value == rise
                * samples[i].nanos + base,
    ensures
        run * Sums::of(samples).y == rise * Sums::of(samples).x + Sums::of(samples).n * base,
        run * Sums::of(samples).xy == rise * Sums::of(samples).xx + base * Sums::of(samples).x,
        run * Sums::of(samples).yy == rise * Sums::of(samples).xy + base * Sums::of(samples).y,
    decreases samples.len(),
{
    if samples.len() == 0 {
        assert(run * 0 == 0 && rise * 0 == 0 && 0 * base == 0 && base * 0 == 0)
            by (nonlinear_arith);
    } else {
        let rest = samples.drop_last();
        assert forall|i: int| 0 <= i < rest.len() implies run * (#[trigger] rest[i]).value == rise
            * rest[i].nanos + base by {
            assert(rest[i] == samples[i]);
        }
        line_sums(rest, rise, run, base);
        let s = Sums::of(rest);
        let last = samples[samples.len() - 1];
        let (u, v) = (last.nanos as int, last.value as int);
        assert(run * (s.y + v) == rise * (s.x + u) + (s.n + 1) * base) by (nonlinear_arith)
            requires
                run * s.y == rise * s.x + s.n * base,
                run * v == rise * u + base,
        ;
        assert(run * (u * v) == u * (run * v)) by (nonlinear_arith);
        assert(u * (rise * u + base) == rise * (u * u) + base * u) by (nonlinear_arith);
        assert(run * (s.xy + u * v) == rise * (s.xx + u * u) + base * (s.x + u))
            by (nonlinear_arith)
            requires
                run * s.xy == rise * s.xx + base * s.x,
                run * (u * v) == rise * (u * u) + base * u,
        ;
        assert(run * (v * v) == v * (run * v)) by (nonlinear_arith);
        assert(v * (rise * u + base) == rise * (u * v) + base * v) by (nonlinear_arith);
        assert(run * (s.yy + v * v) == rise * (s.xy + u * v) + base * (s.y + v))
            by (nonlinear_arith)
            requires
                run * s.yy == rise * s.xy + base * s.y,
                run * (v * v) == rise * (u * v) + base * v,
        ;
    }
}

/// The sums are what they are called: adding a sample to the others adds its time,
/// its value, their squares and their product, whatever its place among them.
pub proof fn sums_add_up(samples: Seq<Sample>, more: Seq<Sample>)
    ensures
        ({
            let (a, b, c) = (Sums::of(samples), Sums::of(more), Sums::of(samples + more));
            &&& c.n == a.n + b.n && c.x == a.x + b.x && c.y == a.y + b.y
            &&& c.xx == a.xx + b.xx && c.xy == a.xy + b.xy && c.yy == a.yy + b.yy
        }),
        more.len() == 1 ==> ({
            let (t, v, b) = (more[0].nanos as int, more[0].value as int, Sums::of(more));
            &&& b.n == 1 && b.x == t && b.y == v
            &&& b.xx == t * t && b.xy == t * v && b.yy == v * v
        }),
    decreases more.len(),
{
    if more.len() == 0 {
        assert(samples + more =~= samples);
    } else {
        let rest = more.drop_last();
        assert((samples + more).drop_last() =~= samples + rest);
        sums_add_up(samples, rest);
        if more.len() == 1 {
            assert(rest =~= Seq::empty());
            assert(more.last() == more[0]);
        }
    }
}

/// The line passes through the middle of the samples: at their mean time it has
/// their mean value.
pub proof fn lines_pass_through_the_middle(s: Sums, mean: int)
    requires
        s.n > 0,
        s.x == s.n * mean,
    ensures
        s.line_at(mean) == s.spread() * s.y,
{
    let (n, c, a) = (s.n, s.joint(), s.spread());
    assert(n * c * mean == c * s.x) by (nonlinear_arith)
        requires
            s.x == n * mean,
    ;
}

/// The line rises by its slope: over any time it gains the slope times that time.
pub proof fn lines_rise_by_their_slope(s: Sums, from: int, to: int)
    ensures
        (s.line_at(to) - s.line_at(from)) * 1_000_000_000 == s.n * s.slope().numerator * (to
            - from),
        s.slope().denominator == s.spread(),
        s.line_at(to) >= 0 ==> s.predicted(to).numerator == s.line_at(to),
        s.line_at(to) < 0 ==> s.predicted(to).numerator == 0,
        s.predicted(to).denominator == s.n * s.spread(),
{
    let k = s.n * s.joint();
    assert(k * to - k * from == k * (to - from)) by (nonlinear_arith);
    let (n, j, d) = (s.n, s.joint(), to - from);
    assert(n * j * d * 1_000_000_000 == n * (j * 1_000_000_000) * d) by (nonlinear_arith);
}

/// A trend is a change that matters: in a second the line moves by more than two
/// percent of the mean, away from zero or toward it. Around a mean of zero there is
/// none.
pub proof fn trends_are_changes_that_matter(s: Sums)
    requires
        s.n > 0,
        s.spread() > 0,
    ensures
        s.y > 0 ==> (s.trend() is Improving <==> 50 * s.n * s.slope().numerator > s.y
            * s.slope().denominator),
        s.y > 0 ==> (s.trend() is Degrading <==> 50 * s.n * s.slope().numerator < -(s.y
            * s.slope().denominator)),
        s.y < 0 ==> (s.trend() is Improving <==> 50 * s.n * s.slope().numerator < s.y
            * s.slope().denominator),
        s.y < 0 ==> (s.trend() is Degrading <==> 50 * s.n * s.slope().numerator > -(s.y
            * s.slope().denominator)),
        s.y == 0 ==> s.trend() is Stable,
{
    let (n, j, y, a) = (s.n, s.joint(), s.y, s.spread());
    let rise = 50 * n * (j * 1_000_000_000);
    let level = y * a;
    assert(50_000_000_000 * (n * j * y) == rise * y) by (nonlinear_arith)
        requires
            rise == 50 * n * (j * 1_000_000_000),
    ;
    assert(a * (y * y) == level * y) by (nonlinear_arith)
        requires
            level == y * a,
    ;
    assert(y > 0 ==> (rise * y > level * y <==> rise > level) && (rise * y < -(level * y) <==> rise
        < -level)) by (nonlinear_arith);
    assert(y < 0 ==> (rise * y > level * y <==> rise < level) && (rise * y < -(level * y) <==> rise
        > -level)) by (nonlinear_arith);
    assert(y == 0 ==> rise * y == 0 && level * y == 0) by (nonlinear_arith);
    assert(level * y >= 0) by (nonlinear_arith)
        requires
            level == y * a,
            a > 0,
    ;
}

/// No line fits better: the squared distances of the samples from any other line, of
/// any slope and any height, add up to at least as much as those from this one. All
/// are in parts of `n` times the spread.
pub proof fn no_line_fits_better(samples: Seq<Sample>, slope: int, height: int)
    ensures
        ({
            let s = Sums::of(samples);
            let parts = s.n * s.spread();
            residuals(samples, parts, s.line_at(1) - s.line_at(0), s.line_at(0)) <= residuals(
                samples,
                parts,
                slope,
                height,
            )
        }),
{
    let s = Sums::of(samples);
    let (n, x, y, xx, xy) = (s.n, s.x, s.y, s.xx, s.xy);
    let (a, c) = (s.spread(), s.joint());
    let (p, q, k) = (n * a, n * c, a * y - c * x);
    let (u, v) = (slope - q, height - k);
    assert(n * c * 1 == n * c && n * c * 0 == 0) by (nonlinear_arith);
    assert(s.line_at(1) - s.line_at(0) == q && s.line_at(0) == k);
    residuals_expand(samples, p, q, k);
    residuals_expand(samples, p, slope, height);
    residuals_expand(samples, 0, u, v);
    // The line goes through the middle of the samples, and no tilt is left in what
    // it leaves over.
    assert(q * x + n * k == p * y) by (nonlinear_arith)
        requires
            p == n * a,
            q == n * c,
            k == a * y - c * x,
    ;
    assert(q * xx + k * x == p * xy) by {
        assert(q * xx == c * (n * xx)) by (nonlinear_arith)
            requires
                q == n * c,
        ;
        assert(k * x == a * (x * y) - c * (x * x)) by (nonlinear_arith)
            requires
                k == a * y - c * x,
        ;
        assert(c * (n * xx) - c * (x * x) == a * c) by (nonlinear_arith)
            requires
                a == n * xx - x * x,
        ;
        assert(a * c + a * (x * y) == a * (n * xy)) by (nonlinear_arith)
            requires
                c == n * xy - x * y,
        ;
        assert(a * (n * xy) == p * xy) by (nonlinear_arith)
            requires
                p == n * a,
        ;
    }
    tilting_a_line_costs(p, q, k, u, v, n, x, y, xx, xy);
    let w = 0int;
    assert(w * w * s.yy == 0 && w * u * xy == 0 && w * v * y == 0) by (nonlinear_arith)
        requires
            w == 0,
    ;
}

proof fn tilting_a_line_costs(
    p: int,
    q: int,
    k: int,
    u: int,
    v: int,
    n: int,
    x: int,
    y: int,
    xx: int,
    xy: int,
)
    requires
        q * x + n * k == p * y,
        q * xx + k * x == p * xy,
    ensures
        ({
            let (r, h) = (q + u, k + v);
            (-2 * (p * r * xy) + r * r * xx - 2 * (p * h * y) + 2 * (r * h * x) + n * h * h) - (-2 * (p
                * q * xy) + q * q * xx - 2 * (p * k * y) + 2 * (q * k * x) + n * k * k) == u * u
                * xx + 2 * (u * v * x) + n * v * v
        }),
{
    let (r, h) = (q + u, k + v);
    assert(r * r * xx == q * q * xx + 2 * (u * (q * xx)) + u * u * xx) by (nonlinear_arith)
        requires
            r == q + u,
    ;
    let (a, b, c, d) = (q * k, q * v, u * k, u * v);
    assert(r * h == a + b + c + d) by (nonlinear_arith)
        requires
            r == q + u,
            h == k + v,
            a == q * k,
            b == q * v,
            c == u * k,
            d == u * v,
    ;
    assert((a + b + c + d) * x == a * x + b * x + c * x + d * x) by (nonlinear_arith);
    assert(b * x == v * (q * x)) by (nonlinear_arith)
        requires
            b == q * v,
    ;
    assert(c * x == u * (k * x)) by (nonlinear_arith)
        requires
            c == u * k,
    ;
    assert(n * h * h == n * k * k + 2 * (v * (n * k)) + n * v * v) by (nonlinear_arith)
        requires
            h == k + v,
    ;
    assert(p * r * xy == p * q * xy + u * (p * xy)) by (nonlinear_arith)
        requires
            r == q + u,
    ;
    assert(p * h * y == p * k * y + v * (p * y)) by (nonlinear_arith)
        requires
            h == k + v,
    ;
    assert(u * (q * xx) + u * (k * x) == u * (p * xy)) by (nonlinear_arith)
        requires
            q * xx + k * x == p * xy,
    ;
    assert(v * (q * x) + v * (n * k) == v * (p * y)) by (nonlinear_arith)
        requires
            q * x + n * k == p * y,
    ;
}

/// The confidence is the share of the scatter that times explain, and full where there
/// is no scatter to explain.
pub proof fn confidence_is_a_share_of_the_scatter(s: Sums)
    ensures
        s.scatter() == 0 ==> s.confidence().numerator == s.confidence().denominator
            && s.confidence().denominator != 0,
        s.scatter() != 0 ==> s.confidence().numerator * (s.spread() * s.scatter()) == s.joint()
            * s.joint() * s.confidence().denominator,
        s.scatter() != 0 && s.spread() != 0 ==> s.confidence().denominator != 0,
{
    let (a, d) = (s.spread(), s.scatter());
    assert(a != 0 && d != 0 ==> a * d != 0) by (nonlinear_arith);
}

/// No line is drawn through samples that were all taken at once, nor where their times
/// scatter by less than 2^-52 square seconds.
pub proof fn one_instant_gives_no_line(samples: Seq<Sample>, nanos: u128, other: Sums)
    requires
        samples.len() > 0,
        forall|i: int| 0 <= i < samples.len() ==> (#[trigger] samples[i]).nanos == nanos,
    ensures
        Sums::of(samples).spread() == 0,
        Sums::of(samples).at_one_instant(),
        other.at_one_instant() <==> other.spread() * 4_503_599_627_370_496 < other.n
            * 1_000_000_000_000_000_000,
{
    equal_times_add_up(samples, nanos);
    sums_count(samples);
    let (n, t) = (Sums::of(samples).n, nanos as int);
    assert(n * (n * (t * t)) == (n * t) * (n * t)) by (nonlinear_arith);
}

proof fn equal_times_add_up(samples: Seq<Sample>, nanos: u128)
    requires
        forall|i: int| 0 <= i < samples.len() ==> (#[trigger] samples[i]).nanos == nanos,
    ensures
        Sums::of(samples).x == Sums::of(samples).n * nanos,
        Sums::of(samples).xx == Sums::of(samples).n * (nanos * nanos),
    decreases samples.len(),
{
    let t = nanos as int;
    if samples.len() == 0 {
        assert(0 * t == 0 && 0 * (t * t) == 0) by (nonlinear_arith);
    } else {
        let rest = samples.drop_last();
        assert forall|i: int| 0 <= i < rest.len() implies (#[trigger] rest[i]).nanos == nanos by {
            assert(rest[i] == samples[i]);
        }
        equal_times_add_up(rest, nanos);
        let n = Sums::of(rest).n;
        assert(samples[samples.len() - 1].nanos == nanos);
        assert((n + 1) * t == n * t + t) by (nonlinear_arith);
        assert((n + 1) * (t * t) == n * (t * t) + t * t) by (nonlinear_arith);
    }
}

} // verus!
