//! Exponentially weighted averages, in exact arithmetic.
//!
//! An average takes constant memory, responds smoothly to change, and forgets
//! old conditions: each sample moves it by a fixed share of the distance that
//! lies between them.

use crate::ratio::Ratio;
use vstd::prelude::*;

verus! {

/// A share of a distance: more than nothing, and no more than all of it.
pub open spec fn is_share(share: Ratio) -> bool {
    0 < share.numerator <= share.denominator
}

/// The part of `amount` that the share makes, to the unit below.
pub open spec fn part(amount: nat, share: Ratio) -> nat {
    amount * share.numerator as nat / share.denominator as nat
}

/// The average after another sample: it has moved toward the sample by the
/// share of the distance between them.
pub open spec fn moved(current: nat, sample: nat, share: Ratio) -> nat {
    if sample >= current {
        current + part((sample - current) as nat, share)
    } else {
        (current - part((current - sample) as nat, share)) as nat
    }
}

/// The average after a sample. The first sample is the average: weighing it
/// against nothing would start at zero and climb slowly.
pub open spec fn averaged(current: Option<nat>, sample: nat, share: Ratio) -> nat {
    match current {
        Some(current) => moved(current, sample, share),
        None => sample,
    }
}

/// The share that is in effect when `share` is asked for: at least a hundredth,
/// and at most the whole.
pub open spec fn effective(share: Ratio) -> Ratio {
    if share.numerator * 100 < share.denominator {
        Ratio { numerator: 1, denominator: 100 }
    } else if share.numerator > share.denominator {
        Ratio { numerator: 1, denominator: 1 }
    } else {
        share
    }
}

/// Returns the share that is in effect when `share` is asked for.
pub fn within_bounds(share: Ratio) -> (r: Ratio)
    requires
        share.wf(),
    ensures
        r == effective(share),
        is_share(r),
{
    if (share.numerator as u128) * 100 < share.denominator as u128 {
        Ratio::new(1, 100)
    } else if share.numerator > share.denominator {
        Ratio::new(1, 1)
    } else {
        share
    }
}

proof fn part_is_no_more(amount: nat, share: Ratio)
    requires
        is_share(share),
    ensures
        part(amount, share) <= amount,
{
    let (n, d) = (share.numerator as int, share.denominator as int);
    assert(amount * n / d <= amount) by (nonlinear_arith)
        requires
            0 < n <= d,
            amount >= 0,
    ;
}

proof fn part_by_division(amount: int, n: int, d: int)
    requires
        amount >= 0,
        0 < n <= d,
    ensures
        amount * n / d == (amount / d) * n + (amount % d) * n / d,
{
    let (q, r) = (amount / d, amount % d);
    vstd::arithmetic::div_mod::lemma_fundamental_div_mod(amount, d);
    assert(amount * n == r * n + (q * n) * d) by (nonlinear_arith)
        requires
            amount == d * q + r,
    ;
    vstd::arithmetic::div_mod::lemma_hoist_over_denominator(r * n, q * n, d as nat);
}

fn part_of(amount: u128, share: Ratio) -> (p: u128)
    requires
        is_share(share),
    ensures
        p == part(amount as nat, share),
        p <= amount,
{
    let n: u128 = share.numerator as u128;
    let d: u128 = share.denominator as u128;
    proof {
        part_is_no_more(amount as nat, share);
        part_by_division(amount as int, n as int, d as int);
        let (q, r) = (amount / d, amount % d);
        assert(0 <= r * n <= 0xffff_ffff_ffff_ffff * 0xffff_ffff_ffff_ffff) by (nonlinear_arith)
            requires
                0 <= r <= 0xffff_ffff_ffff_ffff,
                0 <= n <= 0xffff_ffff_ffff_ffff,
        ;
        assert(0 <= q * n <= q * d) by (nonlinear_arith)
            requires
                0 <= n <= d,
                0 <= q,
        ;
        vstd::arithmetic::div_mod::lemma_fundamental_div_mod(amount as int, d as int);
        assert(q * d == d * q) by (nonlinear_arith);
        assert(r * n / (d as int) >= 0) by (nonlinear_arith)
            requires
                r * n >= 0,
                d > 0,
        ;
    }
    (amount / d) * n + (amount % d) * n / d
}

/// Returns the average after a sample.
pub fn average(current: Option<u128>, sample: u128, share: Ratio) -> (r: u128)
    requires
        is_share(share),
    ensures
        r == averaged(
            match current {
                Some(c) => Some(c as nat),
                None => None,
            },
            sample as nat,
            share,
        ),
{
    match current {
        None => sample,
        Some(current) => {
            if sample >= current {
                current + part_of(sample - current, share)
            } else {
                current - part_of(current - sample, share)
            }
        },
    }
}

/// An average never leaves the range of its samples, and samples that are all
/// alike leave it where it is.
pub proof fn averages_stay_within_their_samples(current: nat, sample: nat, share: Ratio)
    requires
        is_share(share),
    ensures
        current <= sample ==> current <= moved(current, sample, share) <= sample,
        sample <= current ==> sample <= moved(current, sample, share) <= current,
        moved(current, current, share) == current,
{
    if sample >= current {
        part_is_no_more((sample - current) as nat, share);
    } else {
        part_is_no_more((current - sample) as nat, share);
    }
    part_is_no_more(0, share);
}

/// How far apart two numbers are.
pub open spec fn gap(a: nat, b: nat) -> nat {
    if a >= b {
        (a - b) as nat
    } else {
        (b - a) as nat
    }
}

/// A single outlier does not dominate: it moves the average by no more than its
/// share. And a sustained change is followed: what is left of the distance after
/// each sample is no more than the rest, but for less than one unit.
pub proof fn samples_move_by_their_share(current: nat, sample: nat, share: Ratio)
    requires
        is_share(share),
    ensures
        gap(moved(current, sample, share), current) * share.denominator <= gap(sample, current)
            * share.numerator,
        gap(sample, moved(current, sample, share)) * share.denominator < gap(sample, current) * (
        share.denominator - share.numerator) + share.denominator,
{
    let d = gap(sample, current) as int;
    let (n, m) = (share.numerator as int, share.denominator as int);
    let p = part(d as nat, share) as int;
    part_is_no_more(d as nat, share);
    vstd::arithmetic::div_mod::lemma_fundamental_div_mod(d * n, m);
    assert(p * m <= d * n && (d - p) * m < d * (m - n) + m) by (nonlinear_arith)
        requires
            d * n == m * p + (d * n) % m,
            0 <= (d * n) % m < m,
            m > 0,
    ;
}

/// An average weighs what it was against the sample, the sample by its share: it is
/// the weighted sum of both, but for less than one unit. The first sample is the
/// average.
pub proof fn averages_weigh_old_against_new(current: nat, sample: nat, share: Ratio)
    requires
        is_share(share),
    ensures
        averaged(None, sample, share) == sample,
        ({
            let (n, d) = (share.numerator as int, share.denominator as int);
            let after = averaged(Some(current), sample, share);
            -d < d * after - ((d - n) * current + n * sample) < d
        }),
{
    let (n, d) = (share.numerator as int, share.denominator as int);
    let gap = if sample >= current {
        sample - current
    } else {
        current - sample
    };
    let p = part(gap as nat, share) as int;
    part_is_no_more(gap as nat, share);
    vstd::arithmetic::div_mod::lemma_fundamental_div_mod(gap * n, d);
    let r = (gap * n) % d;
    assert(d * p == gap * n - r);
    if sample >= current {
        assert(d * (current + p) - ((d - n) * current + n * sample) == -r) by (nonlinear_arith)
            requires
                d * p == gap * n - r,
                gap == sample - current,
        ;
    } else {
        assert(d * (current - p) - ((d - n) * current + n * sample) == r) by (nonlinear_arith)
            requires
                d * p == gap * n - r,
                gap == current - sample,
        ;
    }
}

/// The share in effect is the one asked for wherever that lies from a hundredth to
/// the whole, and the nearer of these two where it does not.
pub proof fn shares_are_kept_within_bounds(asked: Ratio)
    requires
        asked.wf(),
    ensures
        is_share(effective(asked)),
        effective(asked).numerator * 100 >= effective(asked).denominator,
        asked.numerator * 100 >= asked.denominator && asked.numerator <= asked.denominator
            ==> effective(asked) == asked,
        asked.numerator * 100 < asked.denominator ==> effective(asked).numerator * 100
            == effective(asked).denominator,
        asked.numerator > asked.denominator ==> effective(asked).numerator == effective(
            asked,
        ).denominator,
{
}

/// The gap between two numbers is what has to be added to the smaller one.
pub proof fn gaps_bridge_numbers(a: nat, b: nat)
    ensures
        a <= b ==> a + gap(a, b) == b,
        b <= a ==> b + gap(a, b) == a,
{
}

} // verus!
