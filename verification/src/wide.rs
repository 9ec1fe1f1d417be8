//! Arithmetic on numbers that are wider than 128 bits.

use vstd::prelude::*;

verus! {

/// The two halves of a product of 128 bits and 64 bits, in words of 64 bits.
fn product(a: u128, b: u64) -> (p: (u128, u128))
    ensures
        p.0 * 0x1_0000_0000_0000_0000 + p.1 == a * b,
        p.1 < 0x1_0000_0000_0000_0000,
{
    let word: u128 = 0x1_0000_0000_0000_0000;
    let (high, low): (u128, u128) = (a / word, a % word);
    let factor: u128 = b as u128;
    proof {
        assert(high * factor <= 0xffff_ffff_ffff_ffff * 0xffff_ffff_ffff_ffff) by (nonlinear_arith)
            requires
                0 <= high <= 0xffff_ffff_ffff_ffff,
                0 <= factor <= 0xffff_ffff_ffff_ffff,
        ;
        assert(low * factor <= 0xffff_ffff_ffff_ffff * 0xffff_ffff_ffff_ffff) by (nonlinear_arith)
            requires
                0 <= low <= 0xffff_ffff_ffff_ffff,
                0 <= factor <= 0xffff_ffff_ffff_ffff,
        ;
        assert(a * factor == high * factor * word + low * factor) by (nonlinear_arith)
            requires
                a == high * word + low,
        ;
    }
    let carried: u128 = low * factor;
    (high * factor + carried / word, carried % word)
}

/// Returns `true` when `a * b` is at least `c * d`.
pub fn product_reaches(a: u128, b: u64, c: u128, d: u64) -> (r: bool)
    ensures
        r == (a * b >= c * d),
{
    let left = product(a, b);
    let right = product(c, d);
    left.0 > right.0 || (left.0 == right.0 && left.1 >= right.1)
}

/// Sixteen binary digits more of a quotient, and the remainder that is left.
fn next_digits(quotient: u128, remainder: u128, divisor: u128, Ghost(bound): Ghost<nat>) -> (p: (
    u128,
    u128,
))
    requires
        remainder < divisor <= 0x4000_0000_0000_0000_0000_0000_0000,
        quotient < bound <= 0x1_0000_0000_0000_0000_0000,
    ensures
        p.0 * divisor + p.1 == (quotient * divisor + remainder) * 0x1_0000,
        p.1 < divisor,
        p.0 < bound * 0x1_0000,
{
    let shifted: u128 = remainder * 0x1_0000;
    proof {
        vstd::arithmetic::div_mod::lemma_fundamental_div_mod(shifted as int, divisor as int);
        assert(shifted / divisor < 0x1_0000) by (nonlinear_arith)
            requires
                shifted < divisor * 0x1_0000,
                divisor > 0,
                shifted >= 0,
        ;
        let (q, d) = (shifted / divisor, divisor as int);
        assert((quotient * 0x1_0000 + q) * d == quotient * d * 0x1_0000 + d * q)
            by (nonlinear_arith);
    }
    (quotient * 0x1_0000 + shifted / divisor, shifted % divisor)
}

/// Returns `a` times 2^64 divided by `b`, to the unit below.
pub fn shifted_quotient(a: u128, b: u128) -> (q: u128)
    requires
        0 < b <= 0x4000_0000_0000_0000_0000_0000_0000,
        a < b * 0x1_0000_0000,
    ensures
        q == a * 0x1_0000_0000_0000_0000 / b as int,
{
    proof {
        vstd::arithmetic::div_mod::lemma_fundamental_div_mod(a as int, b as int);
        assert(a / b < 0x1_0000_0000) by (nonlinear_arith)
            requires
                a < b * 0x1_0000_0000,
                b > 0,
                a >= 0,
        ;
        assert((a / b) * b == b * (a / b)) by (nonlinear_arith);
    }
    let first = next_digits(a / b, a % b, b, Ghost(0x1_0000_0000));
    let second = next_digits(first.0, first.1, b, Ghost(0x1_0000_0000_0000));
    let third = next_digits(second.0, second.1, b, Ghost(0x1_0000_0000_0000_0000));
    let fourth = next_digits(third.0, third.1, b, Ghost(0x1_0000_0000_0000_0000_0000));
    proof {
        vstd::arithmetic::div_mod::lemma_fundamental_div_mod_converse(
            a * 0x1_0000_0000_0000_0000,
            b as int,
            fourth.0 as int,
            fourth.1 as int,
        );
    }
    fourth.0
}

} // verus!
