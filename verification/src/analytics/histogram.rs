//! Distribution tracking for latency and other measurements.
//!
//! Averages hide exactly what matters on a network. A mean round-trip time of
//! 40 ms is consistent with every request taking 40 ms, and equally consistent
//! with 95% taking 5 ms while the rest take 700 ms. Only percentiles distinguish
//! the two.
//!
//! [`Histogram`] uses fixed logarithmic buckets rather than storing samples.
//! That bounds memory regardless of how long it runs. The cost is that
//! percentiles are accurate to the bucket width, which widens for larger values.

use crate::time::{Duration, MAX_NANOS};
use vstd::prelude::*;

verus! {

/// The number of buckets spanning the tracked range.
pub const BUCKET_COUNT: usize = 64;

/// The weight of the binary places that bucket edges are kept to.
pub const PLACES: u128 = 0x1_0000_0000_0000_0000;

/// Where bucket `k` starts, in nanoseconds and to 64 binary places: the first at
/// one microsecond, each a growth of 26% above the one before.
pub open spec fn scaled(k: nat) -> nat
    decreases k,
{
    if k == 0 {
        1000 * PLACES as nat
    } else {
        scaled((k - 1) as nat) * 126 / 100
    }
}

/// The smallest whole number of nanoseconds at or above the start of bucket `k`.
pub open spec fn edge(k: nat) -> nat {
    ((scaled(k) + PLACES - 1) / PLACES as int) as nat
}

/// The start of bucket `k` to the nearest nanosecond.
pub open spec fn rounded(k: nat) -> nat {
    ((scaled(k) + PLACES as int / 2) / PLACES as int) as nat
}

/// The bucket that `nanos` falls in, from bucket `k` up. The first bucket also
/// takes what lies below it, and the last what lies above.
pub open spec fn bucket_from(nanos: nat, k: nat) -> nat
    decreases 63 - k,
{
    if k >= 63 || nanos < edge(k + 1) {
        k
    } else {
        bucket_from(nanos, k + 1)
    }
}

/// The bucket that `nanos` falls in.
pub open spec fn bucket_of(nanos: nat) -> nat {
    bucket_from(nanos, 0)
}

/// Where bucket `k` ends, to the nearest nanosecond.
pub open spec fn upper_bound(k: nat) -> nat {
    rounded(k + 1)
}

/// The total of the first `k` numbers.
pub open spec fn prefix(counts: Seq<u64>, k: nat) -> nat
    decreases k,
{
    if k == 0 {
        0
    } else {
        prefix(counts, (k - 1) as nat) + counts[k - 1] as nat
    }
}

/// The first bucket, from `b` up, by which `target` measurements are counted.
pub open spec fn bucket_reaching(counts: Seq<u64>, target: nat, b: nat) -> nat
    decreases 63 - b,
{
    if b >= 63 || prefix(counts, b + 1) >= target {
        b
    } else {
        bucket_reaching(counts, target, b + 1)
    }
}

/// A percentage, kept exactly: `numerator / denominator` percent.
#[derive(Debug, Clone, Copy, PartialEq, Eq, Hash, Structural)]
pub struct Percent {
    /// The percents counted.
    pub numerator: i64,
    /// How many of them make one percent.
    pub denominator: u64,
}

impl Percent {
    /// A percentage has a denominator.
    pub open spec fn wf(self) -> bool {
        self.denominator > 0
    }

    /// The percentage `numerator / denominator`.
    pub fn new(numerator: i64, denominator: u64) -> (p: Percent)
        requires
            denominator > 0,
        ensures
            p == (Percent { numerator, denominator }),
            p.wf(),
    {
        Percent { numerator, denominator }
    }

    /// A percentage in whole percents.
    pub fn whole(percent: i64) -> (p: Percent)
        ensures
            p == (Percent { numerator: percent, denominator: 1 }),
            p.wf(),
    {
        Percent { numerator: percent, denominator: 1 }
    }

    /// Which of `count` measurements, in ascending order and counted from one,
    /// stands at this percentage. Percentages below zero count as zero, those
    /// above a hundred as a hundred.
    pub open spec fn rank(self, count: nat) -> nat {
        if self.numerator <= 0 {
            1
        } else if self.numerator >= 100 * self.denominator {
            count
        } else {
            let whole = 100 * self.denominator;
            ((self.numerator * count + whole - 1) / whole) as nat
        }
    }

    /// This percentage is no larger than `other`.
    pub open spec fn at_most(self, other: Percent) -> bool {
        self.numerator * other.denominator <= other.numerator * self.denominator
    }

    /// Returns which of `count` measurements stands at this percentage.
    fn rank_in(self, count: u64) -> (r: u64)
        requires
            self.wf(),
            count > 0,
        ensures
            r == self.rank(count as nat),
            1 <= r <= count,
    {
        let whole: u128 = 100 * (self.denominator as u128);
        if self.numerator <= 0 {
            1
        } else if (self.numerator as u128) >= whole {
            count
        } else {
            let n: u128 = self.numerator as u128;
            let c: u128 = count as u128;
            assert(n * c <= 0x7fff_ffff_ffff_ffff * 0xffff_ffff_ffff_ffff) by (nonlinear_arith)
                requires
                    n <= 0x7fff_ffff_ffff_ffff,
                    c <= 0xffff_ffff_ffff_ffff,
            ;
            assert(n * c >= 1) by (nonlinear_arith)
                requires
                    n >= 1,
                    c >= 1,
            ;
            assert(n * c <= (whole - 1) * c) by (nonlinear_arith)
                requires
                    n <= whole - 1,
                    c >= 1,
            ;
            let r: u128 = (n * c + (whole - 1)) / whole;
            assert(1 <= r <= c) by (nonlinear_arith)
                requires
                    r == (n * c + (whole - 1)) / (whole as int),
                    n * c >= 1,
                    n * c <= (whole - 1) * c,
                    whole >= 100,
                    c >= 1,
            ;
            r as u64
        }
    }
}

/// What a histogram knows of the measurements that it was given.
pub struct Tally {
    /// How many measurements fell in each bucket.
    pub counts: Seq<u64>,
    /// How many measurements there are.
    pub count: nat,
    /// The sum of the measurements, in nanoseconds.
    pub total: nat,
    /// The smallest measurement.
    pub min: Option<nat>,
    /// The largest measurement.
    pub max: Option<nat>,
}

/// The smaller of what is known.
pub open spec fn least(a: Option<nat>, b: Option<nat>) -> Option<nat> {
    match (a, b) {
        (Some(x), Some(y)) => Some(if x <= y { x } else { y }),
        (Some(x), None) => Some(x),
        (None, y) => y,
    }
}

/// The larger of what is known.
pub open spec fn greatest(a: Option<nat>, b: Option<nat>) -> Option<nat> {
    match (a, b) {
        (Some(x), Some(y)) => Some(if x >= y { x } else { y }),
        (Some(x), None) => Some(x),
        (None, y) => y,
    }
}

impl Tally {
    /// Nothing measured.
    pub open spec fn empty() -> Tally {
        Tally {
            counts: Seq::new(64, |i: int| 0u64),
            count: 0,
            total: 0,
            min: None,
            max: None,
        }
    }

    /// One measurement of `nanos` more.
    pub open spec fn plus(self, nanos: nat) -> Tally {
        let b = bucket_of(nanos) as int;
        Tally {
            counts: self.counts.update(b, (self.counts[b] + 1) as u64),
            count: self.count + 1,
            total: self.total + nanos,
            min: least(self.min, Some(nanos)),
            max: greatest(self.max, Some(nanos)),
        }
    }

    /// The measurements of both.
    pub open spec fn merged(self, other: Tally) -> Tally {
        Tally {
            counts: Seq::new(64, |i: int| (self.counts[i] + other.counts[i]) as u64),
            count: self.count + other.count,
            total: self.total + other.total,
            min: least(self.min, other.min),
            max: greatest(self.max, other.max),
        }
    }

    /// The mean to the nearest nanosecond.
    pub open spec fn mean(self) -> Option<nat> {
        if self.count == 0 {
            None
        } else {
            Some((2 * self.total + self.count) / (2 * self.count))
        }
    }

    /// What is reported for the measurements in bucket `k`. The last bucket has no
    /// end, so its upper bound gives way to the largest measurement where that
    /// lies above it.
    pub open spec fn reported(self, k: nat) -> nat {
        match self.max {
            Some(max) if k >= 63 && max > upper_bound(k) => max,
            _ => upper_bound(k),
        }
    }

    /// The value below which that percentage of the measurements fall, to the
    /// width of a bucket.
    pub open spec fn percentile(self, percent: Percent) -> Option<nat> {
        if self.count == 0 {
            None
        } else {
            Some(self.reported(bucket_reaching(self.counts, percent.rank(self.count), 0)))
        }
    }

    /// The buckets hold what is counted, and extremes are known exactly if there
    /// is something to know.
    pub open spec fn wf(self) -> bool {
        &&& self.counts.len() == 64
        &&& self.count <= u64::MAX
        &&& self.count == prefix(self.counts, 64)
        &&& self.total <= self.count * MAX_NANOS
        &&& (self.count == 0) == (self.min is None)
        &&& (self.count == 0) == (self.max is None)
        &&& self.min matches Some(n) ==> n <= MAX_NANOS
        &&& self.max matches Some(n) ==> n <= MAX_NANOS
    }
}

/// The tally of the given measurements.
pub open spec fn tally_of(samples: Seq<nat>) -> Tally
    decreases samples.len(),
{
    if samples.len() == 0 {
        Tally::empty()
    } else {
        tally_of(samples.drop_last()).plus(samples.last())
    }
}

/// How many of the measurements are at most `bound`.
pub open spec fn at_or_below(samples: Seq<nat>, bound: nat) -> nat
    decreases samples.len(),
{
    if samples.len() == 0 {
        0
    } else {
        at_or_below(samples.drop_last(), bound) + if samples.last() <= bound {
            1nat
        } else {
            0
        }
    }
}

proof fn scaled_grows(k: nat)
    ensures
        scaled(k) >= 1000 * PLACES,
        scaled(k) < scaled(k + 1),
    decreases k,
{
    if k > 0 {
        scaled_grows((k - 1) as nat);
    }
}

proof fn scaled_is_monotone(j: nat, k: nat)
    requires
        j <= k,
    ensures
        scaled(j) <= scaled(k),
    decreases k - j,
{
    if j < k {
        scaled_grows(j);
        scaled_is_monotone(j + 1, k);
    }
}

proof fn eight_steps(k: nat)
    ensures
        scaled(k + 8) <= 7 * scaled(k),
{
    assert(scaled(k + 1) * 100 <= scaled(k) * 126);
    assert(scaled(k + 2) * 100 <= scaled(k + 1) * 126);
    assert(scaled(k + 3) * 100 <= scaled(k + 2) * 126);
    assert(scaled(k + 4) * 100 <= scaled(k + 3) * 126);
    assert(scaled(k + 5) * 100 <= scaled(k + 4) * 126);
    assert(scaled(k + 6) * 100 <= scaled(k + 5) * 126);
    assert(scaled(k + 7) * 100 <= scaled(k + 6) * 126);
    assert(scaled(k + 8) * 100 <= scaled(k + 7) * 126);
}

proof fn scaled_is_bounded(k: nat)
    requires
        k <= 64,
    ensures
        scaled(k) <= 5_764_801_000 * PLACES,
        rounded(k) <= 5_764_801_000,
{
    eight_steps(0);
    eight_steps(8);
    eight_steps(16);
    eight_steps(24);
    eight_steps(32);
    eight_steps(40);
    eight_steps(48);
    eight_steps(56);
    scaled_is_monotone(k, 64);
}

proof fn edges_ascend(j: nat, k: nat)
    requires
        j <= k,
    ensures
        edge(j) <= edge(k),
        rounded(j) <= rounded(k),
{
    scaled_is_monotone(j, k);
}

/// A measurement falls in the one bucket that starts at or below it, and ends
/// above it; the first bucket has no start and the last no end.
pub proof fn buckets_contain_their_measurements(nanos: nat)
    ensures
        bucket_of(nanos) < 64,
        bucket_of(nanos) > 0 ==> edge(bucket_of(nanos)) <= nanos,
        bucket_of(nanos) < 63 ==> nanos < edge(bucket_of(nanos) + 1),
{
    bucket_from_contains(nanos, 0);
}

proof fn bucket_from_contains(nanos: nat, k: nat)
    requires
        k <= 63,
        k > 0 ==> edge(k) <= nanos,
    ensures
        k <= bucket_from(nanos, k) < 64,
        bucket_from(nanos, k) > 0 ==> edge(bucket_from(nanos, k)) <= nanos,
        bucket_from(nanos, k) < 63 ==> nanos < edge(bucket_from(nanos, k) + 1),
    decreases 63 - k,
{
    if !(k >= 63 || nanos < edge(k + 1)) {
        bucket_from_contains(nanos, k + 1);
    }
}

/// Longer measurements fall in higher buckets.
pub proof fn buckets_ascend(a: nat, b: nat)
    requires
        a <= b,
    ensures
        bucket_of(a) <= bucket_of(b),
{
    buckets_contain_their_measurements(a);
    buckets_contain_their_measurements(b);
    if bucket_of(a) > bucket_of(b) {
        edges_ascend(bucket_of(b) + 1, bucket_of(a));
    }
}

proof fn prefix_after_one_more(counts: Seq<u64>, b: int, k: nat)
    requires
        counts.len() == 64,
        0 <= b < 64,
        k <= 64,
        counts[b] < u64::MAX,
    ensures
        prefix(counts.update(b, (counts[b] + 1) as u64), k) == prefix(counts, k) + if b < k {
            1nat
        } else {
            0
        },
    decreases k,
{
    if k > 0 {
        prefix_after_one_more(counts, b, (k - 1) as nat);
    }
}

proof fn prefix_of_sum(a: Seq<u64>, b: Seq<u64>, c: Seq<u64>, k: nat)
    requires
        a.len() == 64,
        b.len() == 64,
        c.len() == 64,
        k <= 64,
        forall|i: int| 0 <= i < 64 ==> #[trigger] c[i] == a[i] + b[i],
    ensures
        prefix(c, k) == prefix(a, k) + prefix(b, k),
    decreases k,
{
    if k > 0 {
        prefix_of_sum(a, b, c, (k - 1) as nat);
        assert(c[k - 1] == a[k - 1] + b[k - 1]);
    }
}

proof fn prefix_grows(counts: Seq<u64>, j: nat, k: nat)
    requires
        j <= k,
    ensures
        prefix(counts, j) <= prefix(counts, k),
        j < k ==> prefix(counts, j) + counts[j as int] <= prefix(counts, k),
    decreases k,
{
    if j < k {
        prefix_grows(counts, j, (k - 1) as nat);
    }
}

proof fn empty_prefix(k: nat)
    requires
        k <= 64,
    ensures
        prefix(Tally::empty().counts, k) == 0,
    decreases k,
{
    if k > 0 {
        empty_prefix((k - 1) as nat);
    }
}

/// A fixed-memory distribution of measurements.
#[derive(Debug)]
pub struct Histogram {
    buckets: Vec<u64>,
    count: u64,
    secs: u128,
    nanos: u128,
    min: Option<Duration>,
    max: Option<Duration>,
}

spec fn length(d: Option<Duration>) -> Option<nat> {
    match d {
        Some(d) => Some(d.nanos()),
        None => None,
    }
}

impl View for Histogram {
    type V = Tally;

    closed spec fn view(&self) -> Tally {
        Tally {
            counts: self.buckets@,
            count: self.count as nat,
            total: (self.secs * 1_000_000_000 + self.nanos) as nat,
            min: length(self.min),
            max: length(self.max),
        }
    }
}

proof fn mean_by_parts(secs: int, nanos: int, c: int)
    requires
        c > 0,
        secs >= 0,
        nanos >= 0,
    ensures
        (2 * (secs * 1_000_000_000 + nanos) + c) / (2 * c) == (secs / c) * 1_000_000_000 + (2 * ((
        secs % c) * 1_000_000_000 + nanos) + c) / (2 * c),
{
    let q = secs / c;
    let r = secs % c;
    let rest = 2 * (r * 1_000_000_000 + nanos) + c;
    vstd::arithmetic::div_mod::lemma_fundamental_div_mod(secs, c);
    assert(2 * (secs * 1_000_000_000 + nanos) + c == rest + (q * 1_000_000_000) * (2 * c))
        by (nonlinear_arith)
        requires
            secs == c * q + r,
            rest == 2 * (r * 1_000_000_000 + nanos) + c,
    ;
    vstd::arithmetic::div_mod::lemma_hoist_over_denominator(
        rest,
        q * 1_000_000_000,
        (2 * c) as nat,
    );
}

/// Finds the bucket that `nanos` falls in.
fn bucket_for(nanos: u128) -> (b: usize)
    ensures
        b == bucket_of(nanos as nat),
        b < BUCKET_COUNT,
{
    let mut b: usize = 0;
    let mut start: u128 = 1000 * PLACES;
    while b < BUCKET_COUNT - 1
        invariant
            b < BUCKET_COUNT,
            start == scaled(b as nat),
            bucket_from(nanos as nat, b as nat) == bucket_of(nanos as nat),
        decreases BUCKET_COUNT - b,
    {
        proof {
            scaled_is_bounded(b as nat);
            scaled_is_bounded((b + 1) as nat);
        }
        let next: u128 = start * 126 / 100;
        assert(next == scaled((b + 1) as nat));
        if nanos < (next + (PLACES - 1)) / PLACES {
            return b;
        }
        start = next;
        b += 1;
    }
    b
}

/// Returns the upper bound of bucket `b`.
fn bucket_upper_bound(b: usize) -> (d: Duration)
    requires
        b < BUCKET_COUNT,
    ensures
        d.nanos() == upper_bound(b as nat),
{
    let mut start: u128 = 1000 * PLACES;
    let mut k: usize = 0;
    while k < b + 1
        invariant
            k <= b + 1,
            b < BUCKET_COUNT,
            start == scaled(k as nat),
        decreases b + 1 - k,
    {
        proof {
            scaled_is_bounded(k as nat);
        }
        start = start * 126 / 100;
        k += 1;
    }
    proof {
        scaled_is_bounded((b + 1) as nat);
    }
    Duration::of_nanos((start + PLACES / 2) / PLACES)
}

fn shorter(a: Option<Duration>, b: Option<Duration>) -> (r: Option<Duration>)
    ensures
        length(r) == least(length(a), length(b)),
{
    match (a, b) {
        (Some(x), Some(y)) => {
            if y.is_shorter_than(&x) {
                Some(y)
            } else {
                Some(x)
            }
        },
        (Some(x), None) => Some(x),
        (None, y) => y,
    }
}

fn longer(a: Option<Duration>, b: Option<Duration>) -> (r: Option<Duration>)
    ensures
        length(r) == greatest(length(a), length(b)),
{
    match (a, b) {
        (Some(x), Some(y)) => {
            if x.is_shorter_than(&y) {
                Some(y)
            } else {
                Some(x)
            }
        },
        (Some(x), None) => Some(x),
        (None, y) => y,
    }
}

impl Histogram {
    /// The parts of the sum stay within what that many measurements can add up
    /// to, and the buckets hold what is counted.
    pub closed spec fn wf(&self) -> bool {
        &&& self@.wf()
        &&& self.secs <= self.count * u64::MAX
        &&& self.nanos <= self.count * 999_999_999
    }

    /// A well-formed histogram has a well-formed tally.
    pub proof fn tally_is_wf(&self)
        requires
            self.wf(),
        ensures
            self@.wf(),
    {
    }

    /// Creates an empty histogram.
    pub fn new() -> (h: Histogram)
        ensures
            h.wf(),
            h@ == Tally::empty(),
    {
        let mut buckets: Vec<u64> = Vec::new();
        while buckets.len() < BUCKET_COUNT
            invariant
                buckets@.len() <= BUCKET_COUNT,
                forall|i: int| 0 <= i < buckets@.len() ==> buckets@[i] == 0,
            decreases BUCKET_COUNT - buckets@.len(),
        {
            buckets.push(0);
        }
        let h = Histogram { buckets, count: 0, secs: 0, nanos: 0, min: None, max: None };
        proof {
            assert(h@.counts =~= Tally::empty().counts);
            empty_prefix(64);
        }
        h
    }

    /// Records a measurement.
    pub fn record(&mut self, value: Duration)
        requires
            old(self).wf(),
            old(self)@.count < u64::MAX,
        ensures
            final(self).wf(),
            final(self)@ == old(self)@.plus(value.nanos()),
    {
        let ghost before = self@;
        let nanos: u128 = value.as_nanos();
        let b: usize = bucket_for(nanos);
        proof {
            prefix_grows(before.counts, b as nat, 64);
            prefix_after_one_more(before.counts, b as int, 64);
            assert(self.count * u64::MAX + u64::MAX <= u64::MAX * u64::MAX) by (nonlinear_arith)
                requires
                    self.count < u64::MAX,
            ;
            assert((self.count + 1) * u64::MAX == self.count * u64::MAX + u64::MAX)
                by (nonlinear_arith);
            assert((self.count + 1) * MAX_NANOS == self.count * MAX_NANOS + MAX_NANOS)
                by (nonlinear_arith);
        }
        let held: u64 = self.buckets[b];
        self.buckets.set(b, held + 1);
        self.count = self.count + 1;
        self.secs = self.secs + value.as_secs() as u128;
        self.nanos = self.nanos + value.subsec_nanos() as u128;
        self.min = shorter(self.min, Some(value));
        self.max = longer(self.max, Some(value));
        assert(self@ == before.plus(value.nanos()));
    }

    /// Records a measurement given directly in whole microseconds.
    ///
    /// Negative values are ignored rather than corrupting the distribution.
    pub fn record_micros(&mut self, micros: i64)
        requires
            old(self).wf(),
            old(self)@.count < u64::MAX,
        ensures
            final(self).wf(),
            final(self)@ == if micros < 0 {
                old(self)@
            } else {
                old(self)@.plus((micros * 1_000) as nat)
            },
    {
        if micros < 0 {
            return;
        }
        self.record(Duration::from_micros(micros as u64));
    }

    /// Returns how many measurements were recorded.
    pub fn count(&self) -> (n: u64)
        ensures
            n == self@.count,
    {
        self.count
    }

    /// Returns `true` if nothing has been recorded.
    pub fn is_empty(&self) -> (r: bool)
        ensures
            r == (self@.count == 0),
    {
        self.count == 0
    }

    /// Returns how many measurements fell in each bucket.
    pub fn buckets(&self) -> (b: &[u64])
        ensures
            b@ == self@.counts,
    {
        self.buckets.as_slice()
    }

    /// Returns the smallest measurement.
    pub fn min(&self) -> (d: Option<Duration>)
        ensures
            spans(d, self@.min),
    {
        self.min
    }

    /// Returns the largest measurement.
    pub fn max(&self) -> (d: Option<Duration>)
        ensures
            spans(d, self@.max),
    {
        self.max
    }

    /// Returns the arithmetic mean, to the nearest nanosecond.
    ///
    /// Kept alongside the percentiles because the gap between mean and median is
    /// itself informative: a mean far above the median means a heavy tail.
    pub fn mean(&self) -> (d: Option<Duration>)
        requires
            self.wf(),
        ensures
            spans(d, self@.mean()),
    {
        if self.count == 0 {
            return None;
        }
        let c: u128 = self.count as u128;
        let quotient: u128 = self.secs / c;
        let remainder: u128 = self.secs % c;
        proof {
            assert(quotient <= u64::MAX) by (nonlinear_arith)
                requires
                    quotient == self.secs / c,
                    self.secs <= c * u64::MAX,
                    c > 0,
            ;
            mean_by_parts(self.secs as int, self.nanos as int, c as int);
            let twice = 2 * self@.total + c;
            let near = twice / (2 * c);
            assert(near <= MAX_NANOS) by (nonlinear_arith)
                requires
                    near == twice / (2 * c),
                    twice <= 2 * (c * MAX_NANOS) + c,
                    c > 0,
            ;
        }
        let rest: u128 = remainder * 1_000_000_000 + self.nanos;
        let nearest: u128 = quotient * 1_000_000_000 + (2 * rest + c) / (2 * c);
        Some(Duration::of_nanos(nearest))
    }

    /// Returns the value below which `percent` percent of measurements fall.
    ///
    /// The result is accurate to the width of the containing bucket, and is no
    /// underestimate: it is the upper bound of that bucket, or the largest
    /// measurement where that lies above the last bucket's bound.
    pub fn percentile(&self, percent: Percent) -> (d: Option<Duration>)
        requires
            self.wf(),
            percent.wf(),
        ensures
            spans(d, self@.percentile(percent)),
    {
        if self.count == 0 {
            return None;
        }
        let target: u64 = percent.rank_in(self.count);
        let ghost counts = self.buckets@;
        let mut seen: u64 = 0;
        let mut b: usize = 0;
        while b < BUCKET_COUNT - 1
            invariant
                self.wf(),
                counts == self.buckets@,
                b < BUCKET_COUNT,
                seen == prefix(counts, b as nat),
                self.count > 0,
                target == percent.rank(self.count as nat),
                bucket_reaching(counts, target as nat, b as nat) == bucket_reaching(
                    counts,
                    target as nat,
                    0,
                ),
            decreases BUCKET_COUNT - b,
        {
            proof {
                prefix_grows(counts, (b + 1) as nat, 64);
            }
            seen = seen + self.buckets[b];
            if seen >= target {
                return Some(bucket_upper_bound(b));
            }
            b += 1;
        }
        longer(Some(bucket_upper_bound(b)), self.max)
    }

    /// Returns the median.
    pub fn median(&self) -> (d: Option<Duration>)
        requires
            self.wf(),
        ensures
            spans(d, self@.percentile(Percent { numerator: 50, denominator: 1 })),
    {
        self.percentile(Percent::whole(50))
    }

    /// Returns a summary of the distribution.
    pub fn summary(&self) -> (s: DistributionSummary)
        requires
            self.wf(),
        ensures
            s.summarises(self@),
    {
        DistributionSummary {
            count: self.count,
            min: self.min(),
            max: self.max(),
            mean: self.mean(),
            p50: self.percentile(Percent::whole(50)),
            p90: self.percentile(Percent::whole(90)),
            p99: self.percentile(Percent::whole(99)),
        }
    }

    /// Merges another histogram into this one.
    ///
    /// Used to combine per-connection distributions into a per-process view
    /// without keeping every sample.
    pub fn merge(&mut self, other: &Histogram)
        requires
            old(self).wf(),
            other.wf(),
            old(self)@.count + other@.count <= u64::MAX,
        ensures
            final(self).wf(),
            final(self)@ == old(self)@.merged(other@),
    {
        let ghost before = self@;
        let mut b: usize = 0;
        proof {
            assert(self.count * u64::MAX + other.count * u64::MAX <= u64::MAX * u64::MAX)
                by (nonlinear_arith)
                requires
                    self.count + other.count <= u64::MAX,
            ;
            assert((self.count + other.count) * u64::MAX == self.count * u64::MAX + other.count
                * u64::MAX) by (nonlinear_arith);
            assert((self.count + other.count) * MAX_NANOS == self.count * MAX_NANOS + other.count
                * MAX_NANOS) by (nonlinear_arith);
        }
        while b < BUCKET_COUNT
            invariant
                b <= BUCKET_COUNT,
                self.buckets@.len() == 64,
                other.buckets@.len() == 64,
                before.wf(),
                other@.wf(),
                before.count + other@.count <= u64::MAX,
                self.count == old(self).count,
                self.secs == old(self).secs,
                self.nanos == old(self).nanos,
                self.min == old(self).min,
                self.max == old(self).max,
                forall|i: int|
                    0 <= i < b ==> #[trigger] self.buckets@[i] == before.counts[i]
                        + other@.counts[i],
                forall|i: int| b <= i < 64 ==> #[trigger] self.buckets@[i] == before.counts[i],
            decreases BUCKET_COUNT - b,
        {
            proof {
                prefix_grows(before.counts, b as nat, 64);
                prefix_grows(other@.counts, b as nat, 64);
            }
            let held: u64 = self.buckets[b];
            let added: u64 = other.buckets[b];
            self.buckets.set(b, held + added);
            b += 1;
        }
        proof {
            prefix_of_sum(before.counts, other@.counts, self.buckets@, 64);
        }
        self.count = self.count + other.count;
        self.secs = self.secs + other.secs;
        self.nanos = self.nanos + other.nanos;
        self.min = shorter(self.min, other.min);
        self.max = longer(self.max, other.max);
        assert(self@.counts =~= before.merged(other@).counts);
        assert(self@ == before.merged(other@));
    }

    /// Discards every measurement.
    pub fn clear(&mut self)
        ensures
            final(self).wf(),
            final(self)@ == Tally::empty(),
    {
        *self = Histogram::new();
    }
}

impl Default for Histogram {
    fn default() -> (h: Histogram)
        ensures
            h.wf(),
            h@ == Tally::empty(),
    {
        Histogram::new()
    }
}

impl Clone for Histogram {
    fn clone(&self) -> (h: Histogram)
        ensures
            h@ == self@,
            self.wf() ==> h.wf(),
    {
        let mut buckets: Vec<u64> = Vec::new();
        let mut i: usize = 0;
        while i < self.buckets.len()
            invariant
                i <= self.buckets@.len(),
                buckets@ == self.buckets@.take(i as int),
            decreases self.buckets@.len() - i,
        {
            buckets.push(self.buckets[i]);
            i += 1;
            assert(buckets@ =~= self.buckets@.take(i as int));
        }
        assert(buckets@ =~= self.buckets@);
        Histogram {
            buckets,
            count: self.count,
            secs: self.secs,
            nanos: self.nanos,
            min: self.min,
            max: self.max,
        }
    }
}

/// A point-in-time summary of a distribution.
#[derive(Debug, Clone, Copy, PartialEq, Eq)]
#[non_exhaustive]
pub struct DistributionSummary {
    /// How many measurements were recorded.
    pub count: u64,
    /// The smallest measurement.
    pub min: Option<Duration>,
    /// The largest measurement.
    pub max: Option<Duration>,
    /// The arithmetic mean.
    pub mean: Option<Duration>,
    /// The median.
    pub p50: Option<Duration>,
    /// The 90th percentile.
    pub p90: Option<Duration>,
    /// The 99th percentile.
    pub p99: Option<Duration>,
}

impl DistributionSummary {
    /// The summary of the measurements behind `t`.
    pub open spec fn summarises(&self, t: Tally) -> bool {
        &&& self.count == t.count
        &&& spans(self.min, t.min)
        &&& spans(self.max, t.max)
        &&& spans(self.mean, t.mean())
        &&& spans(self.p50, t.percentile(Percent { numerator: 50, denominator: 1 }))
        &&& spans(self.p90, t.percentile(Percent { numerator: 90, denominator: 1 }))
        &&& spans(self.p99, t.percentile(Percent { numerator: 99, denominator: 1 }))
    }

    /// Returns `true` if the distribution has a heavy tail.
    ///
    /// True when the 99th percentile is at least four times the median, which
    /// indicates a minority of requests behaving very differently from the rest.
    pub fn has_heavy_tail(&self) -> (r: bool)
        ensures
            r == match (self.p50, self.p99) {
                (Some(median), Some(tail)) => median.nanos() > 0 && tail.nanos() >= 4
                    * median.nanos(),
                _ => false,
            },
    {
        match (self.p50, self.p99) {
            (Some(median), Some(tail)) => !median.is_zero() && tail.as_nanos() >= 4
                * median.as_nanos(),
            _ => false,
        }
    }
}

impl Default for DistributionSummary {
    fn default() -> (s: DistributionSummary)
        ensures
            s.count == 0,
            s.min is None && s.max is None && s.mean is None,
            s.p50 is None && s.p90 is None && s.p99 is None,
    {
        DistributionSummary {
            count: 0,
            min: None,
            max: None,
            mean: None,
            p50: None,
            p90: None,
            p99: None,
        }
    }
}

/// The span is known exactly if the length is, and is of that length.
pub open spec fn spans(d: Option<Duration>, nanos: Option<nat>) -> bool {
    match d {
        Some(d) => nanos == Some(d.nanos()),
        None => nanos is None,
    }
}

/// All measurements are spans that can be written down, and not more than can be
/// counted.
pub open spec fn countable(samples: Seq<nat>) -> bool {
    &&& samples.len() <= u64::MAX
    &&& forall|i: int| 0 <= i < samples.len() ==> #[trigger] samples[i] <= MAX_NANOS
}

/// Every measurement is counted: a histogram that was given `samples`, one by
/// one, counts as many, and its buckets hold them all.
pub proof fn every_measurement_is_counted(samples: Seq<nat>)
    requires
        countable(samples),
    ensures
        tally_of(samples).wf(),
        tally_of(samples).count == samples.len(),
    decreases samples.len(),
{
    if samples.len() == 0 {
        empty_prefix(64);
    } else {
        let rest = samples.drop_last();
        let v = samples.last();
        assert(countable(rest)) by {
            assert forall|i: int| 0 <= i < rest.len() implies #[trigger] rest[i] <= MAX_NANOS by {
                assert(rest[i] == samples[i]);
            }
        }
        assert(v == samples[samples.len() - 1]);
        every_measurement_is_counted(rest);
        let t = tally_of(rest);
        buckets_contain_their_measurements(v);
        prefix_grows(t.counts, bucket_of(v), 64);
        prefix_after_one_more(t.counts, bucket_of(v) as int, 64);
        assert((t.count + 1) * MAX_NANOS == t.count * MAX_NANOS + MAX_NANOS) by (nonlinear_arith);
    }
}

/// Merging two histograms gives the histogram of all their measurements.
pub proof fn merging_is_recording_both(a: Seq<nat>, b: Seq<nat>)
    requires
        countable(a + b),
    ensures
        tally_of(a + b) == tally_of(a).merged(tally_of(b)),
    decreases b.len(),
{
    assert(countable(a)) by {
        assert forall|i: int| 0 <= i < a.len() implies #[trigger] a[i] <= MAX_NANOS by {
            assert(a[i] == (a + b)[i]);
        }
    }
    assert(countable(b)) by {
        assert forall|i: int| 0 <= i < b.len() implies #[trigger] b[i] <= MAX_NANOS by {
            assert(b[i] == (a + b)[a.len() + i]);
        }
    }
    every_measurement_is_counted(a);
    every_measurement_is_counted(b);
    if b.len() == 0 {
        assert(a + b =~= a);
        assert(tally_of(a).merged(tally_of(b)).counts =~= tally_of(a).counts);
    } else {
        let rest = b.drop_last();
        let v = b.last();
        assert((a + b).drop_last() =~= a + rest);
        assert((a + b).last() == v);
        assert(countable(a + rest)) by {
            assert forall|i: int| 0 <= i < (a + rest).len() implies #[trigger] (a + rest)[i]
                <= MAX_NANOS by {
                assert((a + rest)[i] == (a + b)[i]);
            }
        }
        merging_is_recording_both(a, rest);
        every_measurement_is_counted(a + rest);
        assert(countable(rest)) by {
            assert forall|i: int| 0 <= i < rest.len() implies #[trigger] rest[i] <= MAX_NANOS by {
                assert(rest[i] == b[i]);
            }
        }
        every_measurement_is_counted(rest);
        let ta = tally_of(a);
        let tr = tally_of(rest);
        let k = bucket_of(v);
        buckets_contain_their_measurements(v);
        prefix_grows((ta.merged(tr)).counts, k, 64);
        prefix_grows(tr.counts, k, 64);
        prefix_grows(ta.counts, k, 64);
        assert forall|i: int| 0 <= i < 64 implies ta.counts[i] + #[trigger] tr.counts[i]
            <= u64::MAX by {
            prefix_grows(ta.counts, i as nat, 64);
            prefix_grows(tr.counts, i as nat, 64);
        }
        assert(ta.merged(tr).plus(v).counts =~= ta.merged(tr.plus(v)).counts);
        assert(ta.merged(tr).plus(v) == ta.merged(tr.plus(v)));
    }
}

/// Merging an empty histogram changes nothing.
pub proof fn merging_nothing_changes_nothing(t: Tally)
    requires
        t.wf(),
    ensures
        t.merged(Tally::empty()) == t,
{
    assert(t.merged(Tally::empty()).counts =~= t.counts);
}

proof fn reaching_reaches(counts: Seq<u64>, target: nat, b: nat)
    requires
        b <= 63,
    ensures
        b <= bucket_reaching(counts, target, b) <= 63,
        bucket_reaching(counts, target, b) < 63 ==> prefix(
            counts,
            bucket_reaching(counts, target, b) + 1,
        ) >= target,
    decreases 63 - b,
{
    if !(b >= 63 || prefix(counts, b + 1) >= target) {
        reaching_reaches(counts, target, b + 1);
    }
}

proof fn reaching_ascends(counts: Seq<u64>, low: nat, high: nat, b: nat)
    requires
        b <= 63,
        low <= high,
    ensures
        bucket_reaching(counts, low, b) <= bucket_reaching(counts, high, b),
    decreases 63 - b,
{
    if !(b >= 63 || prefix(counts, b + 1) >= low) {
        reaching_ascends(counts, low, high, b + 1);
    } else {
        reaching_reaches(counts, high, b);
    }
}

proof fn ranks_ascend(p: Percent, q: Percent, count: nat)
    requires
        p.wf(),
        q.wf(),
        p.at_most(q),
        count > 0,
    ensures
        p.rank(count) <= q.rank(count),
        1 <= p.rank(count) <= count,
{
    let pn = p.numerator as int;
    let pd = p.denominator as int;
    let qn = q.numerator as int;
    let qd = q.denominator as int;
    let c = count as int;
    if pn > 0 {
        assert(qn > 0) by (nonlinear_arith)
            requires
                pn * qd <= qn * pd,
                pn > 0,
                qd > 0,
                pd > 0,
        ;
    }
    if 0 < pn < 100 * pd {
        ranks_are_in_range(pn, 100 * pd, c);
    }
    if 0 < qn < 100 * qd {
        ranks_are_in_range(qn, 100 * qd, c);
    }
    if pn >= 100 * pd {
        assert(qn >= 100 * qd) by (nonlinear_arith)
            requires
                pn * qd <= qn * pd,
                pn >= 100 * pd,
                qd > 0,
                pd > 0,
        ;
    }
    if 0 < pn < 100 * pd && 0 < qn < 100 * qd {
        ceilings_ascend(pn * c, 100 * pd, qn * c, 100 * qd);
        assert(pn * c * (100 * qd) <= qn * c * (100 * pd)) by (nonlinear_arith)
            requires
                pn * qd <= qn * pd,
                c > 0,
        ;
    }
}

proof fn ranks_are_in_range(n: int, whole: int, c: int)
    requires
        0 < n < whole,
        c > 0,
    ensures
        1 <= (n * c + whole - 1) / whole <= c,
{
    assert(n * c >= 1) by (nonlinear_arith)
        requires
            n >= 1,
            c >= 1,
    ;
    assert(n * c <= (whole - 1) * c) by (nonlinear_arith)
        requires
            n <= whole - 1,
            c >= 1,
    ;
    let r = (n * c + whole - 1) / whole;
    assert(1 <= r <= c) by (nonlinear_arith)
        requires
            r == (n * c + whole - 1) / whole,
            n * c >= 1,
            n * c <= (whole - 1) * c,
            whole >= 2,
            c >= 1,
    ;
}

proof fn ceilings_ascend(a: int, b: int, x: int, y: int)
    requires
        b > 0,
        y > 0,
    ensures
        a * y <= x * b ==> (a + b - 1) / b <= (x + y - 1) / y,
{
    if a * y <= x * b {
        let m = (x + y - 1) / y;
        assert(x <= m * y) by (nonlinear_arith)
            requires
                m == (x + y - 1) / y,
                y > 0,
        ;
        assert(a <= m * b) by (nonlinear_arith)
            requires
                a * y <= x * b,
                x <= m * y,
                b > 0,
                y > 0,
        ;
        assert((a + b - 1) / b <= m) by (nonlinear_arith)
            requires
                a <= m * b,
                b > 0,
        ;
    }
}

/// Percentiles are ordered: a larger percentage never reports a smaller value.
pub proof fn percentiles_are_ordered(t: Tally, p: Percent, q: Percent)
    requires
        t.wf(),
        t.count > 0,
        p.wf(),
        q.wf(),
        p.at_most(q),
    ensures
        t.percentile(p) matches Some(low) && t.percentile(q) matches Some(high) && low <= high,
{
    ranks_ascend(p, q, t.count);
    let low = p.rank(t.count);
    let high = q.rank(t.count);
    reaching_ascends(t.counts, low, high, 0);
    reaching_reaches(t.counts, high, 0);
    edges_ascend(
        bucket_reaching(t.counts, low, 0) + 1,
        bucket_reaching(t.counts, high, 0) + 1,
    );
}

proof fn counted_up_to(samples: Seq<nat>, b: nat)
    requires
        countable(samples),
        b < 63,
    ensures
        prefix(tally_of(samples).counts, b + 1) <= at_or_below(samples, upper_bound(b)),
    decreases samples.len(),
{
    if samples.len() == 0 {
        empty_prefix(b + 1);
    } else {
        let rest = samples.drop_last();
        let v = samples.last();
        assert(countable(rest)) by {
            assert forall|i: int| 0 <= i < rest.len() implies #[trigger] rest[i] <= MAX_NANOS by {
                assert(rest[i] == samples[i]);
            }
        }
        counted_up_to(rest, b);
        every_measurement_is_counted(rest);
        let t = tally_of(rest);
        buckets_contain_their_measurements(v);
        prefix_grows(t.counts, bucket_of(v), 64);
        prefix_after_one_more(t.counts, bucket_of(v) as int, b + 1);
        if bucket_of(v) <= b {
            edges_ascend(bucket_of(v) + 1, b + 1);
            assert(v < edge(b + 1));
            assert(v <= upper_bound(b));
        }
    }
}

proof fn all_are_at_or_below_the_largest(samples: Seq<nat>, bound: nat)
    requires
        samples.len() > 0,
    ensures
        tally_of(samples).max is Some,
        at_or_below(samples, bound) <= samples.len(),
        (at_or_below(samples, bound) == samples.len()) == (tally_of(samples).max->0 <= bound),
    decreases samples.len(),
{
    let rest = samples.drop_last();
    if rest.len() > 0 {
        all_are_at_or_below_the_largest(rest, bound);
    } else {
        assert(tally_of(rest).max is None);
        assert(at_or_below(rest, bound) == 0);
    }
}

/// A percentile is no underestimate: at least the share of the measurements that
/// was asked for is at most what is reported, and at a hundred percent so is the
/// largest.
pub proof fn percentiles_are_no_underestimates(samples: Seq<nat>, p: Percent)
    requires
        countable(samples),
        samples.len() > 0,
        p.wf(),
    ensures
        tally_of(samples).percentile(p) matches Some(bound) && at_or_below(samples, bound)
            >= p.rank(samples.len()),
        p.numerator >= 100 * p.denominator ==> (tally_of(samples).percentile(p) matches Some(bound)
            && tally_of(samples).max matches Some(max) && bound >= max),
{
    every_measurement_is_counted(samples);
    let t = tally_of(samples);
    let b = bucket_reaching(t.counts, p.rank(samples.len()), 0);
    reaching_reaches(t.counts, p.rank(samples.len()), 0);
    ranks_ascend(p, p, samples.len());
    all_are_at_or_below_the_largest(samples, t.reported(b));
    if b < 63 {
        counted_up_to(samples, b);
    }
}

/// The total of the given lengths.
pub open spec fn sum_of(samples: Seq<nat>) -> nat {
    samples.fold_left(0nat, |sum: nat, n: nat| sum + n)
}

/// What a histogram knows exactly: the total of the measurements, the shortest, which
/// is one of them and no longer than any, and the longest, which is one of them and no
/// shorter than any.
pub proof fn extremes_and_total_are_exact(samples: Seq<nat>)
    ensures
        tally_of(samples).total == sum_of(samples),
        samples.len() == 0 ==> tally_of(samples).min is None && tally_of(samples).max is None,
        samples.len() > 0 ==> (tally_of(samples).min matches Some(n) && samples.contains(n)
            && forall|i: int| 0 <= i < samples.len() ==> n <= #[trigger] samples[i]),
        samples.len() > 0 ==> (tally_of(samples).max matches Some(n) && samples.contains(n)
            && forall|i: int| 0 <= i < samples.len() ==> #[trigger] samples[i] <= n),
    decreases samples.len(),
{
    if samples.len() > 0 {
        let rest = samples.drop_last();
        extremes_and_total_are_exact(rest);
        reveal(Seq::fold_left);
        assert forall|i: int| 0 <= i < samples.len() implies {
            &&& tally_of(samples).min->0 <= #[trigger] samples[i]
            &&& samples[i] <= tally_of(samples).max->0
        } by {
            if i < rest.len() {
                assert(samples[i] == rest[i]);
            }
        }
        assert(samples[samples.len() - 1] == samples.last());
        if rest.len() > 0 {
            let low = tally_of(rest).min->0;
            let high = tally_of(rest).max->0;
            assert(samples[choose|i: int| 0 <= i < rest.len() && rest[i] == low] == low);
            assert(samples[choose|i: int| 0 <= i < rest.len() && rest[i] == high] == high);
        }
    } else {
        reveal(Seq::fold_left);
    }
}

/// The mean is the total over the count, to the nearest nanosecond: off by at most
/// half a nanosecond, and upward from the middle.
pub proof fn means_are_total_over_count(t: Tally)
    ensures
        t.count == 0 ==> t.mean() is None,
        t.count > 0 ==> (t.mean() matches Some(m) && 2 * t.total - t.count < 2 * (m * t.count) <= 2
            * t.total + t.count),
{
    if t.count > 0 {
        let (a, c, m) = (2 * t.total + t.count, t.count as int, t.mean()->0 as int);
        vstd::arithmetic::div_mod::lemma_fundamental_div_mod(a as int, 2 * c);
        assert(a as int == 2 * c * m + a as int % (2 * c));
        assert(2 * c * m == 2 * (m * c)) by (nonlinear_arith);
    }
}

/// Buckets grow by 26%, from one microsecond on, to within a 64th binary place of a
/// nanosecond. A bucket takes whole nanoseconds from its start on, and its end is
/// reported to the nearest.
pub proof fn buckets_grow_by_a_quarter(k: nat)
    ensures
        scaled(0) == 1000 * 0x1_0000_0000_0000_0000,
        100 * scaled(k + 1) <= 126 * scaled(k) < 100 * scaled(k + 1) + 100,
        (edge(k) - 1) * 0x1_0000_0000_0000_0000 < scaled(k) <= edge(k) * 0x1_0000_0000_0000_0000,
        2 * scaled(k) - 0x1_0000_0000_0000_0000 < 2 * (rounded(k) * 0x1_0000_0000_0000_0000) <= 2
            * scaled(k) + 0x1_0000_0000_0000_0000,
        upper_bound(k) == rounded(k + 1),
{
}

/// Each bucket counts the measurements from its start on that lie below the start of
/// the next, the first also those below it, and the last all above.
pub proof fn buckets_count_what_lies_in_them(samples: Seq<nat>, b: nat)
    requires
        countable(samples),
        b < 64,
    ensures
        tally_of(samples).counts[b as int] == samples.filter(
            |n: nat| (b == 0 || edge(b) <= n) && (b == 63 || n < edge(b + 1)),
        ).len(),
    decreases samples.len(),
{
    let within = |n: nat| (b == 0 || edge(b) <= n) && (b == 63 || n < edge(b + 1));
    reveal(Seq::filter);
    if samples.len() > 0 {
        let rest = samples.drop_last();
        let v = samples.last();
        assert forall|i: int| 0 <= i < rest.len() implies #[trigger] rest[i] <= MAX_NANOS by {
            assert(rest[i] == samples[i]);
        }
        buckets_count_what_lies_in_them(rest, b);
        every_measurement_is_counted(rest);
        let t = tally_of(rest);
        let home = bucket_of(v);
        buckets_contain_their_measurements(v);
        if home < b {
            edges_ascend(home + 1, b);
        } else if home > b {
            edges_ascend(b + 1, home);
        }
        assert(within(v) == (home == b));
        prefix_grows(t.counts, home + 1, 64);
        assert(prefix(t.counts, home + 1) == prefix(t.counts, home) + t.counts[home as int]);
        assert(t.counts[home as int] < u64::MAX);
    }
}

/// The measurement at a percentage of `count` is the first with at least that share
/// of them at or before it, and always one of them.
pub proof fn ranks_are_shares_of_the_count(p: Percent, count: nat)
    requires
        p.wf(),
        count > 0,
    ensures
        1 <= p.rank(count) <= count,
        p.numerator <= 0 ==> p.rank(count) == 1,
        p.numerator >= 100 * p.denominator ==> p.rank(count) == count,
        0 < p.numerator < 100 * p.denominator ==> (p.rank(count) - 1) * (100 * p.denominator)
            < p.numerator * count <= p.rank(count) * (100 * p.denominator),
{
    if 0 < p.numerator < 100 * p.denominator {
        let whole = 100 * p.denominator;
        let a = p.numerator * count;
        let r = p.rank(count) as int;
        assert(a > 0 && a <= whole * count) by (nonlinear_arith)
            requires
                a == p.numerator * count,
                0 < p.numerator < whole,
                count > 0,
        ;
        vstd::arithmetic::div_mod::lemma_fundamental_div_mod(a + whole - 1, whole);
        let q = (a + whole - 1) / whole;
        assert(q > 0) by (nonlinear_arith)
            requires
                a + whole - 1 == whole * q + (a + whole - 1) % whole,
                (a + whole - 1) % whole < whole,
                a > 0,
                whole > 0,
        ;
        assert((q - 1) * whole < a <= q * whole) by (nonlinear_arith)
            requires
                a + whole - 1 == whole * q + (a + whole - 1) % whole,
                0 <= (a + whole - 1) % whole < whole,
        ;
        assert(q <= count) by (nonlinear_arith)
            requires
                (q - 1) * whole < a,
                a <= whole * count,
                whole > 0,
        ;
    }
}

/// A percentile is the end of the bucket that the measurement of that rank lies in:
/// with the buckets before it, fewer are counted, and with it, enough. In the last
/// bucket it is the longest measurement, where that lies beyond the end.
pub proof fn percentiles_end_the_bucket_of_their_rank(t: Tally, p: Percent)
    requires
        t.wf(),
        t.count > 0,
        p.wf(),
    ensures
        exists|k: nat|
            {
                &&& k < 64
                &&& prefix(t.counts, k + 1) >= p.rank(t.count)
                &&& prefix(t.counts, k) < p.rank(t.count)
                &&& t.percentile(p) == Some(
                    if k == 63 && t.max->0 > #[trigger] upper_bound(k) {
                        t.max->0
                    } else {
                        upper_bound(k)
                    },
                )
            },
        t.count > 0,
        Tally::empty().percentile(p) is None,
{
    ranks_are_shares_of_the_count(p, t.count);
    let k = bucket_reaching(t.counts, p.rank(t.count), 0);
    reaching_reaches(t.counts, p.rank(t.count), 0);
    nothing_before_reaches(t.counts, p.rank(t.count), 0);
    assert(prefix(t.counts, 0) == 0);
    assert(upper_bound(k) == rounded(k + 1));
}

proof fn nothing_before_reaches(counts: Seq<u64>, target: nat, b: nat)
    requires
        b <= 63,
        prefix(counts, b) < target,
    ensures
        prefix(counts, bucket_reaching(counts, target, b)) < target,
    decreases 63 - b,
{
    if !(b >= 63 || prefix(counts, b + 1) >= target) {
        nothing_before_reaches(counts, target, b + 1);
    }
}

} // verus!
