//! Spans of time and points in time as plain numbers of nanoseconds.
//!
//! Everything that decides on the basis of time takes the time as an argument,
//! so the decision is the same for the same argument. [`Clock`] is the one
//! place that asks the machine what time it is.

use crate::text;
use vstd::prelude::*;

verus! {

/// The monotonic clock reading of the standard library.
#[verifier::external_type_specification]
#[verifier::external_body]
pub struct ExStdInstant(std::time::Instant);

/// The longest span: as many seconds as fit in 64 bits, and a fraction.
pub const MAX_NANOS: u128 = 18446744073709551615999999999;

/// The digits of a fraction of `width` places, without trailing zeros.
pub open spec fn fraction_digits(fraction: nat, width: nat) -> Seq<char>
    decreases width,
{
    if width == 0 || fraction == 0 {
        Seq::empty()
    } else if fraction % 10 == 0 {
        fraction_digits(fraction / 10, (width - 1) as nat)
    } else {
        text::padded(fraction, 10, width)
    }
}

/// A measurement in writing: the whole units, a fraction of `width` places where
/// there is one, and the unit.
pub open spec fn measured(whole: nat, fraction: nat, width: nat, unit: Seq<char>) -> Seq<char> {
    let point = if fraction == 0 {
        Seq::empty()
    } else {
        "."@ + fraction_digits(fraction, width)
    };
    text::decimal(whole) + point + unit
}

/// A span of `nanos` nanoseconds in writing: in the largest unit, from seconds
/// down to nanoseconds, of which it holds at least one, with as many decimal
/// places as it takes.
pub open spec fn span_text(nanos: nat) -> Seq<char> {
    if nanos >= 1_000_000_000 {
        measured(nanos / 1_000_000_000, nanos % 1_000_000_000, 9, "s"@)
    } else if nanos >= 1_000_000 {
        measured(nanos / 1_000_000, nanos % 1_000_000, 6, "ms"@)
    } else if nanos >= 1_000 {
        measured(nanos / 1_000, nanos % 1_000, 3, "µs"@)
    } else {
        measured(nanos, 0, 0, "ns"@)
    }
}

fn push_fraction(out: &mut String, fraction: u32, width: u8)
    ensures
        final(out)@ == old(out)@ + fraction_digits(fraction as nat, width as nat),
    decreases width,
{
    if width == 0 || fraction == 0 {
        assert(old(out)@ + fraction_digits(fraction as nat, width as nat) =~= old(out)@);
    } else if fraction % 10 == 0 {
        push_fraction(out, fraction / 10, width - 1);
    } else {
        text::push_padded(out, fraction as u128, 10, width);
    }
}

fn measurement(whole: u64, fraction: u32, width: u8, unit: &str) -> (s: String)
    ensures
        s@ == measured(whole as nat, fraction as nat, width as nat, unit@),
{
    let mut s = String::new();
    text::push_decimal(&mut s, whole as u128);
    if fraction != 0 {
        s.append(".");
        push_fraction(&mut s, fraction, width);
    }
    s.append(unit);
    assert(s@ =~= measured(whole as nat, fraction as nat, width as nat, unit@));
    s
}

/// A span of time with nanosecond resolution.
#[derive(Debug, Clone, Copy, PartialEq, Eq, PartialOrd, Ord, Hash, Structural)]
pub struct Duration {
    nanos: u128,
}

impl Duration {
    /// The length of the span in nanoseconds.
    pub closed spec fn nanos(self) -> nat {
        self.nanos as nat
    }

    /// No span is longer than [`MAX_NANOS`].
    #[verifier::type_invariant]
    pub closed spec fn in_range(self) -> bool {
        self.nanos <= MAX_NANOS
    }

    /// Two spans of the same length are the same span.
    pub proof fn same_length(a: Duration, b: Duration)
        ensures
            a.nanos() == b.nanos() <==> a == b,
    {
    }

    /// The empty span.
    pub fn zero() -> (d: Duration)
        ensures
            d.nanos() == 0,
    {
        Duration { nanos: 0 }
    }

    /// A span of whole seconds.
    pub fn from_secs(secs: u64) -> (d: Duration)
        ensures
            d.nanos() == secs * 1_000_000_000,
    {
        Duration { nanos: (secs as u128) * 1_000_000_000 }
    }

    /// A span of whole milliseconds.
    pub fn from_millis(millis: u64) -> (d: Duration)
        ensures
            d.nanos() == millis * 1_000_000,
    {
        Duration { nanos: (millis as u128) * 1_000_000 }
    }

    /// A span of whole microseconds.
    pub fn from_micros(micros: u64) -> (d: Duration)
        ensures
            d.nanos() == micros * 1_000,
    {
        Duration { nanos: (micros as u128) * 1_000 }
    }

    /// A span of nanoseconds.
    pub fn from_nanos(nanos: u64) -> (d: Duration)
        ensures
            d.nanos() == nanos,
    {
        Duration { nanos: nanos as u128 }
    }

    /// The span of `nanos` nanoseconds, which no span exceeds.
    pub fn of_nanos(nanos: u128) -> (d: Duration)
        requires
            nanos <= MAX_NANOS,
        ensures
            d.nanos() == nanos,
    {
        Duration { nanos }
    }

    /// A span of seconds and a fraction in nanoseconds.
    pub fn from_parts(secs: u64, subsec_nanos: u32) -> (d: Duration)
        requires
            subsec_nanos < 1_000_000_000,
        ensures
            d.nanos() == secs * 1_000_000_000 + subsec_nanos,
    {
        Duration { nanos: (secs as u128) * 1_000_000_000 + (subsec_nanos as u128) }
    }

    /// The whole seconds of the span.
    pub fn as_secs(&self) -> (secs: u64)
        ensures
            secs == self.nanos() / 1_000_000_000,
    {
        proof {
            use_type_invariant(self);
        }
        (self.nanos / 1_000_000_000) as u64
    }

    /// The nanoseconds of the span beyond its whole seconds.
    pub fn subsec_nanos(&self) -> (nanos: u32)
        ensures
            nanos == self.nanos() % 1_000_000_000,
    {
        (self.nanos % 1_000_000_000) as u32
    }

    /// The whole milliseconds of the span.
    pub fn as_millis(&self) -> (millis: u128)
        ensures
            millis == self.nanos() / 1_000_000,
    {
        self.nanos / 1_000_000
    }

    /// The length of the span in nanoseconds.
    pub fn as_nanos(&self) -> (nanos: u128)
        ensures
            nanos == self.nanos(),
            nanos <= MAX_NANOS,
    {
        proof {
            use_type_invariant(self);
        }
        self.nanos
    }

    /// Returns `true` for the empty span.
    pub fn is_zero(&self) -> (r: bool)
        ensures
            r == (self.nanos() == 0),
    {
        self.nanos == 0
    }

    /// Returns `true` when this span is strictly shorter than `other`.
    pub fn is_shorter_than(&self, other: &Duration) -> (r: bool)
        ensures
            r == (self.nanos() < other.nanos()),
    {
        self.nanos < other.nanos
    }

    /// Half the span, to the nanosecond below.
    pub fn half(self) -> (d: Duration)
        ensures
            d.nanos() == self.nanos() / 2,
    {
        proof {
            use_type_invariant(&self);
        }
        Duration { nanos: self.nanos / 2 }
    }

    /// Returns the span in writing, such as `30s` or `1.5ms`.
    pub fn debug_string(&self) -> (s: String)
        ensures
            s@ == span_text(self.nanos()),
    {
        let secs: u64 = self.as_secs();
        let nanos: u32 = self.subsec_nanos();
        if secs > 0 {
            measurement(secs, nanos, 9, "s")
        } else if nanos >= 1_000_000 {
            measurement((nanos / 1_000_000) as u64, nanos % 1_000_000, 6, "ms")
        } else if nanos >= 1_000 {
            measurement((nanos / 1_000) as u64, nanos % 1_000, 3, "µs")
        } else {
            measurement(nanos as u64, 0, 0, "ns")
        }
    }

    /// How far apart in length two spans are.
    pub fn abs_diff(self, other: Duration) -> (d: Duration)
        ensures
            d.nanos() == if self.nanos() >= other.nanos() {
                self.nanos() - other.nanos()
            } else {
                other.nanos() - self.nanos()
            },
    {
        proof {
            use_type_invariant(&self);
            use_type_invariant(&other);
        }
        if self.nanos >= other.nanos {
            Duration { nanos: self.nanos - other.nanos }
        } else {
            Duration { nanos: other.nanos - self.nanos }
        }
    }
}

/// A point in time, as the span since the start of the clock that gave it.
///
/// Points of different clocks are not comparable.
#[derive(Debug, Clone, Copy, PartialEq, Eq, PartialOrd, Ord, Hash, Structural)]
pub struct Instant {
    nanos: u128,
}

impl Instant {
    /// The nanoseconds between the start of the clock and this point.
    pub closed spec fn nanos(self) -> nat {
        self.nanos as nat
    }

    /// Two points equally far from the start of the clock are the same point.
    pub proof fn same_point(a: Instant, b: Instant)
        ensures
            a.nanos() == b.nanos() <==> a == b,
    {
    }

    /// The point that lies `elapsed` after the start of the clock.
    pub fn at(elapsed: Duration) -> (t: Instant)
        ensures
            t.nanos() == elapsed.nanos(),
    {
        Instant { nanos: elapsed.nanos }
    }

    /// The latest point that can be written down.
    pub open spec fn last() -> nat {
        u128::MAX as nat
    }

    /// The point that lies `span` after this one, or the latest point there is.
    pub closed spec fn after(self, span: Duration) -> Instant {
        Instant {
            nanos: if self.nanos + span.nanos <= u128::MAX {
                (self.nanos + span.nanos) as u128
            } else {
                u128::MAX
            },
        }
    }

    /// Returns the point that lies `span` after this one, or the latest point
    /// there is.
    pub fn saturating_add(self, span: Duration) -> (t: Instant)
        ensures
            t == self.after(span),
            t.nanos() == if self.nanos() + span.nanos() <= Instant::last() {
                self.nanos() + span.nanos()
            } else {
                Instant::last()
            },
    {
        Instant { nanos: self.nanos.saturating_add(span.nanos) }
    }

    /// The span from `earlier` to this point; empty if `earlier` lies later.
    pub fn saturating_duration_since(&self, earlier: Instant) -> (d: Duration)
        ensures
            d.nanos() == since(*self, earlier),
    {
        let gap: u128 = self.nanos.saturating_sub(earlier.nanos);
        if gap <= MAX_NANOS {
            Duration { nanos: gap }
        } else {
            Duration { nanos: MAX_NANOS }
        }
    }

    /// Returns `true` when this point is not earlier than `other`.
    pub fn reached(&self, other: &Instant) -> (r: bool)
        ensures
            r == (self.nanos() >= other.nanos()),
    {
        self.nanos >= other.nanos
    }
}

/// The nanoseconds from `earlier` to `later`, at most [`MAX_NANOS`], and none
/// where `earlier` lies later.
pub open spec fn since(later: Instant, earlier: Instant) -> nat {
    if later.nanos() < earlier.nanos() {
        0
    } else if later.nanos() - earlier.nanos() <= MAX_NANOS {
        (later.nanos() - earlier.nanos()) as nat
    } else {
        MAX_NANOS as nat
    }
}

impl std::ops::Add<Duration> for Instant {
    type Output = Instant;

    fn add(self, rhs: Duration) -> Instant {
        Instant { nanos: self.nanos + rhs.nanos }
    }
}

impl vstd::std_specs::ops::AddSpecImpl<Duration> for Instant {
    open spec fn obeys_add_spec() -> bool {
        true
    }

    open spec fn add_req(self, rhs: Duration) -> bool {
        self.nanos() + rhs.nanos() <= Instant::last()
    }

    closed spec fn add_spec(self, rhs: Duration) -> Instant {
        Instant { nanos: (self.nanos + rhs.nanos) as u128 }
    }
}

/// Adding a span moves a point by exactly that span.
pub proof fn add_moves_by_span(t: Instant, span: Duration)
    requires
        t.nanos() + span.nanos() <= Instant::last(),
    ensures
        vstd::std_specs::ops::AddSpec::add_spec(t, span).nanos() == t.nanos() + span.nanos(),
{
}

/// A monotonic clock.
#[derive(Debug, Clone, Copy)]
pub struct Clock {
    origin: std::time::Instant,
    start: Instant,
}

/// Reads the machine's monotonic clock with `std::time::Instant::now`.
/// Nothing is known of the reading.
#[verifier::external_body]
fn read_machine_clock() -> std::time::Instant {
    std::time::Instant::now()
}

/// Asks `std::time::Instant::elapsed` how long ago `origin` was read, in
/// nanoseconds. The answer depends on when it is asked, so only its range is
/// known: the standard library's spans hold at most [`MAX_NANOS`].
#[verifier::external_body]
fn machine_nanos_since(origin: &std::time::Instant) -> (nanos: u128)
    ensures
        nanos <= MAX_NANOS,
{
    origin.elapsed().as_nanos()
}

impl Clock {
    /// The point in time that the clock showed when it was made.
    pub closed spec fn first(self) -> Instant {
        self.start
    }

    /// Starts a clock at zero.
    pub fn start() -> (c: Clock)
        ensures
            c.first().nanos() == 0,
    {
        Clock { origin: read_machine_clock(), start: Instant { nanos: 0 } }
    }

    /// Starts a clock that shows `now` at this moment.
    pub fn start_at(now: Instant) -> (c: Clock)
        ensures
            c.first() == now,
    {
        Clock { origin: read_machine_clock(), start: now }
    }

    /// The point in time that the clock shows, which is never before the one it
    /// started with.
    pub fn now(&self) -> (t: Instant)
        ensures
            t.nanos() >= self.first().nanos(),
    {
        let elapsed: u128 = machine_nanos_since(&self.origin);
        Instant { nanos: self.start.nanos.saturating_add(elapsed) }
    }
}

/// The time since an earlier point is what lies between them, the time since a later
/// one nothing; and the point after a span lies that far on. Beyond what can be
/// counted, both stop at the most that can be.
pub proof fn spans_lie_between_points(t: Instant, earlier: Instant, span: Duration)
    ensures
        earlier.nanos() <= t.nanos() && t.nanos() - earlier.nanos() <= MAX_NANOS ==> earlier.nanos()
            + since(t, earlier) == t.nanos(),
        t.nanos() <= earlier.nanos() ==> since(t, earlier) == 0,
        earlier.nanos() + MAX_NANOS <= t.nanos() ==> since(t, earlier) == MAX_NANOS,
        t.nanos() + span.nanos() <= u128::MAX ==> t.after(span).nanos() == t.nanos()
            + span.nanos(),
        t.nanos() + span.nanos() > u128::MAX ==> t.after(span).nanos() == u128::MAX,
{
}

/// A whole number of a unit is written as that number and the unit, in the largest
/// unit that it holds at least one of.
pub proof fn whole_spans_are_written_without_a_fraction(n: nat)
    ensures
        n > 0 ==> span_text(n * 1_000_000_000) == text::decimal(n) + "s"@,
        0 < n < 1000 ==> span_text(n * 1_000_000) == text::decimal(n) + "ms"@,
        0 < n < 1000 ==> span_text(n * 1_000) == text::decimal(n) + "µs"@,
        n < 1000 ==> span_text(n) == text::decimal(n) + "ns"@,
{
    let numeral = text::decimal(n);
    assert(numeral + Seq::<char>::empty() =~= numeral);
}

/// A fraction of a second is written behind a point: with zeros added to the right its
/// digits are all of its nine places, and they do not end in a zero.
pub proof fn fractions_are_written_without_trailing_zeros(
    whole: nat,
    fraction: nat,
    width: nat,
)
    requires
        width <= 9,
    ensures
        whole > 0 && 0 < fraction < 1_000_000_000 ==> span_text(whole * 1_000_000_000 + fraction)
            == text::decimal(whole) + ("."@ + fraction_digits(fraction, 9)) + "s"@,
        fraction > 0 ==> fraction_digits(fraction, width).len() <= width,
        fraction > 0 ==> fraction_digits(fraction, width) + Seq::new(
            (width - fraction_digits(fraction, width).len()) as nat,
            |i: int| '0',
        ) == text::padded(fraction, 10, width),
        fraction > 0 && fraction_digits(fraction, width).len() > 0 ==> fraction_digits(
            fraction,
            width,
        ).last() != '0',
    decreases width,
{
    let digits = fraction_digits(fraction, width);
    if fraction > 0 && width > 0 {
        text::padded_numerals_have_a_digit_for_each_place(fraction, 10, width, 0);
        if fraction % 10 == 0 {
            let less = (width - 1) as nat;
            fractions_are_written_without_trailing_zeros(whole, fraction / 10, less);
            let zeros = Seq::new((less - digits.len()) as nat, |i: int| '0');
            let more = Seq::new((width - digits.len()) as nat, |i: int| '0');
            assert(more =~= zeros.push('0'));
            assert(text::digit(0) == '0');
            assert(digits + more =~= (digits + zeros).push('0'));
        } else {
            let none = Seq::new(0, |i: int| '0');
            assert(digits + none =~= digits);
            assert(digits.last() == text::digit(fraction % 10));
        }
    } else if width == 0 {
        assert(digits + Seq::new(0, |i: int| '0') =~= text::padded(fraction, 10, 0));
    }
}

} // verus!
