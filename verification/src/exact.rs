//! Whole numbers and fractions of any size.
//!
//! A magnitude is kept as digits of 32 bits, the least significant first. High
//! digits may be zero.

use vstd::prelude::*;

verus! {

/// How many values a digit takes.
pub const BASE: u64 = 0x1_0000_0000;

/// What a digit counts at position `i`.
pub open spec fn weight(i: nat) -> nat
    decreases i,
{
    if i == 0 {
        1
    } else {
        weight((i - 1) as nat) * BASE as nat
    }
}

/// The digit at position `i`: zero beyond the last one.
pub open spec fn digit(digits: Seq<u32>, i: nat) -> nat {
    if i < digits.len() {
        digits[i as int] as nat
    } else {
        0
    }
}

/// The number that the lowest `n` digits make.
pub open spec fn prefix(digits: Seq<u32>, n: nat) -> nat
    decreases n,
{
    if n == 0 {
        0
    } else {
        prefix(digits, (n - 1) as nat) + digit(digits, (n - 1) as nat) * weight((n - 1) as nat)
    }
}

/// The number that the digits make.
pub open spec fn magnitude(digits: Seq<u32>) -> nat {
    prefix(digits, digits.len())
}

/// The lowest digits make less than the next digit counts.
proof fn prefix_is_bounded(digits: Seq<u32>, n: nat)
    ensures
        prefix(digits, n) < weight(n),
        weight(n) > 0,
    decreases n,
{
    if n > 0 {
        let m = (n - 1) as nat;
        prefix_is_bounded(digits, m);
        let (d, w) = (digit(digits, m), weight(m));
        assert(d * w + w <= w * BASE) by (nonlinear_arith)
            requires
                0 <= d < BASE,
                w > 0,
        ;
    }
}

/// Digits beyond the last add nothing.
proof fn prefix_beyond(digits: Seq<u32>, n: nat)
    requires
        n >= digits.len(),
    ensures
        prefix(digits, n) == magnitude(digits),
    decreases n,
{
    if n > digits.len() {
        prefix_beyond(digits, (n - 1) as nat);
        assert(0 * weight((n - 1) as nat) == 0) by (nonlinear_arith);
    }
}

/// A prefix depends on its own digits alone.
proof fn prefix_of_same_digits(a: Seq<u32>, b: Seq<u32>, n: nat)
    requires
        forall|i: nat| i < n ==> #[trigger] digit(a, i) == digit(b, i),
    ensures
        prefix(a, n) == prefix(b, n),
    decreases n,
{
    if n > 0 {
        prefix_of_same_digits(a, b, (n - 1) as nat);
        assert(digit(a, (n - 1) as nat) == digit(b, (n - 1) as nat));
    }
}

/// One more digit adds what it counts.
proof fn prefix_after_push(digits: Seq<u32>, d: u32)
    ensures
        magnitude(digits.push(d)) == magnitude(digits) + d * weight(digits.len()),
{
    prefix_of_same_digits(digits.push(d), digits, digits.len());
}

/// Returns the digit at position `i`: zero beyond the last one.
fn digit_at(digits: &Vec<u32>, i: usize) -> (d: u64)
    ensures
        d == digit(digits@, i as nat),
        d < BASE,
{
    if i < digits.len() {
        digits[i] as u64
    } else {
        0
    }
}

/// Returns the digits of `a + b`.
fn sum_of(a: &Vec<u32>, b: &Vec<u32>) -> (r: Vec<u32>)
    ensures
        magnitude(r@) == magnitude(a@) + magnitude(b@),
{
    let longer: usize = if a.len() >= b.len() {
        a.len()
    } else {
        b.len()
    };
    let mut r: Vec<u32> = Vec::new();
    let mut carry: u64 = 0;
    let mut i: usize = 0;
    assert(0 * weight(0) == 0) by (nonlinear_arith);
    while i < longer
        invariant
            i <= longer,
            r@.len() == i,
            carry <= 1,
            magnitude(r@) + carry * weight(i as nat) == prefix(a@, i as nat) + prefix(b@, i as nat),
        decreases longer - i,
    {
        let (x, y): (u64, u64) = (digit_at(a, i), digit_at(b, i));
        let sum: u64 = x + y + carry;
        let low: u64 = sum % BASE;
        let next: u64 = sum / BASE;
        proof {
            prefix_after_push(r@, low as u32);
            let w = weight(i as nat);
            assert(low * w + next * (w * BASE) == x * w + y * w + carry * w) by (nonlinear_arith)
                requires
                    next * BASE + low == x + y + carry,
            ;
        }
        r.push(low as u32);
        carry = next;
        i += 1;
    }
    proof {
        prefix_beyond(a@, i as nat);
        prefix_beyond(b@, i as nat);
        prefix_after_push(r@, carry as u32);
    }
    r.push(carry as u32);
    r
}

/// Returns the digits of `a - b`.
fn difference_of(a: &Vec<u32>, b: &Vec<u32>) -> (r: Vec<u32>)
    requires
        magnitude(b@) <= magnitude(a@),
    ensures
        magnitude(r@) == magnitude(a@) - magnitude(b@),
{
    let longer: usize = if a.len() >= b.len() {
        a.len()
    } else {
        b.len()
    };
    let mut r: Vec<u32> = Vec::new();
    let mut borrow: u64 = 0;
    let mut i: usize = 0;
    assert(0 * weight(0) == 0) by (nonlinear_arith);
    while i < longer
        invariant
            i <= longer,
            r@.len() == i,
            borrow <= 1,
            magnitude(r@) + prefix(b@, i as nat) == prefix(a@, i as nat) + borrow * weight(i as nat),
        decreases longer - i,
    {
        let (x, y): (u64, u64) = (digit_at(a, i), digit_at(b, i));
        let left: u64 = x + BASE - y - borrow;
        let low: u64 = left % BASE;
        let next: u64 = 1 - left / BASE;
        proof {
            prefix_after_push(r@, low as u32);
            let w = weight(i as nat);
            assert(low * w + y * w + borrow * w == x * w + next * (w * BASE)) by (nonlinear_arith)
                requires
                    low + y + borrow == x + next * BASE,
            ;
        }
        r.push(low as u32);
        borrow = next;
        i += 1;
    }
    proof {
        prefix_beyond(a@, i as nat);
        prefix_beyond(b@, i as nat);
        prefix_is_bounded(r@, i as nat);
        if borrow == 1 {
            assert(1 * weight(i as nat) == weight(i as nat)) by (nonlinear_arith);
        } else {
            assert(0 * weight(i as nat) == 0) by (nonlinear_arith);
        }
    }
    r
}

/// Returns `true` when `a` is at least `b`.
fn reaches(a: &Vec<u32>, b: &Vec<u32>) -> (r: bool)
    ensures
        r == (magnitude(a@) >= magnitude(b@)),
{
    let longer: usize = if a.len() >= b.len() {
        a.len()
    } else {
        b.len()
    };
    let mut i: usize = longer;
    proof {
        prefix_beyond(a@, i as nat);
        prefix_beyond(b@, i as nat);
    }
    while i > 0
        invariant
            i <= longer,
            magnitude(a@) - prefix(a@, i as nat) == magnitude(b@) - prefix(b@, i as nat),
        decreases i,
    {
        let (x, y): (u64, u64) = (digit_at(a, i - 1), digit_at(b, i - 1));
        let ghost m = (i - 1) as nat;
        if x != y {
            proof {
                prefix_is_bounded(a@, m);
                prefix_is_bounded(b@, m);
                let w = weight(m);
                assert(x > y ==> x * w >= y * w + w) by (nonlinear_arith)
                    requires
                        w > 0,
                        x >= 0,
                        y >= 0,
                ;
                assert(y > x ==> y * w >= x * w + w) by (nonlinear_arith)
                    requires
                        w > 0,
                        x >= 0,
                        y >= 0,
                ;
            }
            return x > y;
        }
        i -= 1;
    }
    true
}

/// Returns the digits of `a` times the digit `d`, moved up by `shift` positions.
fn scaled(a: &Vec<u32>, d: u32, shift: usize) -> (r: Vec<u32>)
    ensures
        magnitude(r@) == magnitude(a@) * d * weight(shift as nat),
{
    let mut r: Vec<u32> = Vec::new();
    let mut i: usize = 0;
    while i < shift
        invariant
            i <= shift,
            r@.len() == i,
            magnitude(r@) == 0,
        decreases shift - i,
    {
        proof {
            prefix_after_push(r@, 0);
            assert(0 * weight(i as nat) == 0) by (nonlinear_arith);
        }
        r.push(0);
        i += 1;
    }
    let mut carry: u64 = 0;
    let mut j: usize = 0;
    assert(0 * weight(shift as nat) == 0) by (nonlinear_arith);
    assert(0 * d * weight(shift as nat) == 0) by (nonlinear_arith);
    while j < a.len()
        invariant
            j <= a@.len(),
            r@.len() == shift + j,
            carry < BASE,
            magnitude(r@) + carry * weight((shift + j) as nat) == prefix(a@, j as nat) * d * weight(
                shift as nat,
            ),
        decreases a@.len() - j,
    {
        let x: u64 = a[j] as u64;
        assert(x * (d as u64) <= 0xffff_ffff * 0xffff_ffff) by (nonlinear_arith)
            requires
                0 <= x <= 0xffff_ffff,
                0 <= d <= 0xffff_ffff,
        ;
        let sum: u64 = x * (d as u64) + carry;
        let low: u64 = sum % BASE;
        let next: u64 = sum / BASE;
        proof {
            prefix_after_push(r@, low as u32);
            weights_multiply(shift as nat, j as nat);
            let (w, ws, wj) = (weight((shift + j) as nat), weight(shift as nat), weight(j as nat));
            let p = prefix(a@, j as nat);
            assert((p + x * wj) * d * ws == p * d * ws + x * d * w) by (nonlinear_arith)
                requires
                    w == ws * wj,
            ;
            assert(low * w + next * (w * BASE) == x * d * w + carry * w) by (nonlinear_arith)
                requires
                    next * BASE + low == x * d + carry,
            ;
            assert(next < BASE) by (nonlinear_arith)
                requires
                    next * BASE + low == x * d + carry,
                    0 <= low,
                    0 <= x < BASE,
                    0 <= d < BASE,
                    0 <= carry < BASE,
            ;
        }
        r.push(low as u32);
        carry = next;
        j += 1;
    }
    proof {
        prefix_after_push(r@, carry as u32);
    }
    r.push(carry as u32);
    r
}

proof fn weights_multiply(a: nat, b: nat)
    ensures
        weight(a + b) == weight(a) * weight(b),
    decreases b,
{
    if b > 0 {
        let c = (b - 1) as nat;
        weights_multiply(a, c);
        assert(weight(a) * weight(c) * BASE == weight(a) * (weight(c) * BASE)) by (nonlinear_arith);
        assert((a + b - 1) as nat == a + c);
    } else {
        assert(weight(a) * 1 == weight(a)) by (nonlinear_arith);
    }
}

/// Returns the digits of `a * b`.
fn product_of(a: &Vec<u32>, b: &Vec<u32>) -> (r: Vec<u32>)
    ensures
        magnitude(r@) == magnitude(a@) * magnitude(b@),
{
    let mut r: Vec<u32> = Vec::new();
    let mut i: usize = 0;
    assert(magnitude(a@) * 0 == 0) by (nonlinear_arith);
    while i < b.len()
        invariant
            i <= b@.len(),
            magnitude(r@) == magnitude(a@) * prefix(b@, i as nat),
        decreases b@.len() - i,
    {
        let part = scaled(a, b[i], i);
        proof {
            let (m, p, d, w) = (magnitude(a@), prefix(b@, i as nat), b@[i as int], weight(i as nat));
            assert(m * (p + d * w) == m * p + m * d * w) by (nonlinear_arith);
        }
        r = trimmed(sum_of(&r, &part));
        i += 1;
    }
    r
}

/// Returns the same number without zeros at the top: the digits up to the last
/// that is not zero.
fn trimmed(digits: Vec<u32>) -> (r: Vec<u32>)
    ensures
        magnitude(r@) == magnitude(digits@),
        r@.len() <= digits@.len(),
        r@ == digits@.take(r@.len() as int),
        forall|i: int| r@.len() <= i < digits@.len() ==> #[trigger] digits@[i] == 0,
        r@.len() > 0 ==> r@.last() != 0,
{
    let mut r = digits;
    assert(digits@.take(digits@.len() as int) =~= digits@);
    while r.len() > 0 && r[r.len() - 1] == 0
        invariant
            magnitude(r@) == magnitude(digits@),
            r@.len() <= digits@.len(),
            r@ == digits@.take(r@.len() as int),
            forall|i: int| r@.len() <= i < digits@.len() ==> #[trigger] digits@[i] == 0,
        decreases r@.len(),
    {
        let ghost had = r@;
        let _ = r.pop();
        proof {
            assert(had =~= r@.push(0));
            assert(r@ =~= digits@.take(r@.len() as int));
            assert(digits@[r@.len() as int] == had.last());
            prefix_after_push(r@, 0);
            assert(0 * weight(r@.len()) == 0) by (nonlinear_arith);
        }
    }
    r
}

/// A whole number of any size.
#[derive(Debug)]
pub struct Integer {
    negative: bool,
    digits: Vec<u32>,
}

impl View for Integer {
    type V = int;

    closed spec fn view(&self) -> int {
        if self.negative {
            -(magnitude(self.digits@) as int)
        } else {
            magnitude(self.digits@) as int
        }
    }
}

impl Integer {
    /// Returns the number zero.
    pub fn zero() -> (r: Integer)
        ensures
            r@ == 0,
    {
        Integer { negative: false, digits: Vec::new() }
    }

    /// Returns the number `n`.
    pub fn from_u128(n: u128) -> (r: Integer)
        ensures
            r@ == n,
    {
        let base: u128 = BASE as u128;
        let mut digits: Vec<u32> = Vec::new();
        let mut left: u128 = n;
        assert(n * weight(0) == n) by (nonlinear_arith)
            requires
                weight(0) == 1,
        ;
        while left > 0
            invariant
                base == BASE,
                magnitude(digits@) + left * weight(digits@.len()) == n,
            decreases left,
        {
            let low: u128 = left % base;
            let next: u128 = left / base;
            proof {
                prefix_after_push(digits@, low as u32);
                let w = weight(digits@.len());
                assert(low * w + next * (w * BASE) == left * w) by (nonlinear_arith)
                    requires
                        next * BASE + low == left,
                ;
            }
            digits.push(low as u32);
            left = next;
        }
        assert(0 * weight(digits@.len()) == 0) by (nonlinear_arith);
        Integer { negative: false, digits }
    }

    /// Returns the number `n`.
    pub fn from_i64(n: i64) -> (r: Integer)
        ensures
            r@ == n,
    {
        if n >= 0 {
            Integer::from_u128(n as u128)
        } else {
            let r = Integer::from_u128((-(n as i128)) as u128);
            Integer { negative: true, digits: r.digits }
        }
    }

    /// Returns the number with the other sign.
    pub fn negated(self) -> (r: Integer)
        ensures
            r@ == -self@,
    {
        Integer { negative: !self.negative, digits: self.digits }
    }

    /// Returns the sum of two numbers.
    pub fn plus(&self, other: &Integer) -> (r: Integer)
        ensures
            r@ == self@ + other@,
    {
        if self.negative == other.negative {
            Integer {
                negative: self.negative,
                digits: trimmed(sum_of(&self.digits, &other.digits)),
            }
        } else if reaches(&self.digits, &other.digits) {
            Integer {
                negative: self.negative,
                digits: trimmed(difference_of(&self.digits, &other.digits)),
            }
        } else {
            Integer {
                negative: other.negative,
                digits: trimmed(difference_of(&other.digits, &self.digits)),
            }
        }
    }

    /// Returns the difference of two numbers.
    pub fn minus(&self, other: &Integer) -> (r: Integer)
        ensures
            r@ == self@ - other@,
    {
        other.negative_of().plus(self)
    }

    fn negative_of(&self) -> (r: Integer)
        ensures
            r@ == -self@,
    {
        Integer { negative: !self.negative, digits: copied(&self.digits) }
    }

    /// Returns the product of two numbers.
    pub fn times(&self, other: &Integer) -> (r: Integer)
        ensures
            r@ == self@ * other@,
    {
        proof {
            let (a, b) = (magnitude(self.digits@) as int, magnitude(other.digits@) as int);
            assert((-a) * b == -(a * b) && a * (-b) == -(a * b) && (-a) * (-b) == a * b)
                by (nonlinear_arith);
        }
        Integer {
            negative: self.negative != other.negative,
            digits: product_of(&self.digits, &other.digits),
        }
    }

    /// Returns `true` when this number is at least `other`.
    pub fn is_at_least(&self, other: &Integer) -> (r: bool)
        ensures
            r == (self@ >= other@),
    {
        !other.minus(self).is_positive()
    }

    /// Returns `true` for a number above zero.
    pub fn is_positive(&self) -> (r: bool)
        ensures
            r == (self@ > 0),
    {
        let nothing: Vec<u32> = Vec::new();
        !self.negative && !reaches(&nothing, &self.digits)
    }

    /// Returns `true` for zero.
    pub fn is_zero(&self) -> (r: bool)
        ensures
            r == (self@ == 0),
    {
        let nothing: Vec<u32> = Vec::new();
        reaches(&nothing, &self.digits)
    }
}

/// Returns a copy of the digits.
fn copied(digits: &Vec<u32>) -> (r: Vec<u32>)
    ensures
        r@ == digits@,
{
    let mut r: Vec<u32> = Vec::new();
    let mut i: usize = 0;
    while i < digits.len()
        invariant
            i <= digits@.len(),
            r@ == digits@.take(i as int),
        decreases digits@.len() - i,
    {
        r.push(digits[i]);
        i += 1;
        assert(digits@.take(i as int) =~= digits@.take(i - 1).push(digits@[i - 1]));
    }
    assert(digits@.take(i as int) =~= digits@);
    r
}

impl Clone for Integer {
    fn clone(&self) -> (r: Integer)
        ensures
            r@ == self@,
    {
        Integer { negative: self.negative, digits: copied(&self.digits) }
    }
}

/// A quotient of two whole numbers.
pub struct Quotient {
    /// What is divided.
    pub numerator: int,
    /// What it is divided by.
    pub denominator: int,
}

impl Quotient {
    /// The quotient is at least `numerator / denominator`, for denominators above
    /// zero.
    pub open spec fn at_least(self, numerator: int, denominator: int) -> bool {
        self.numerator * denominator >= numerator * self.denominator
    }

    /// The quotient is at most `numerator / denominator`, for denominators above
    /// zero.
    pub open spec fn at_most(self, numerator: int, denominator: int) -> bool {
        self.numerator * denominator <= numerator * self.denominator
    }

    /// The quotient is `numerator / denominator`, for denominators other than
    /// zero.
    pub open spec fn equals(self, numerator: int, denominator: int) -> bool {
        self.numerator * denominator == numerator * self.denominator
    }
}

/// A fraction of any size.
#[derive(Debug)]
pub struct Fraction {
    numerator: Integer,
    denominator: Integer,
}

impl View for Fraction {
    type V = Quotient;

    closed spec fn view(&self) -> Quotient {
        Quotient { numerator: self.numerator@, denominator: self.denominator@ }
    }
}

impl Fraction {
    /// The denominator is above zero.
    pub open spec fn wf(&self) -> bool {
        self@.denominator > 0
    }

    /// Returns the fraction `numerator / denominator`.
    pub fn new(numerator: Integer, denominator: Integer) -> (f: Fraction)
        ensures
            f@ == (Quotient { numerator: numerator@, denominator: denominator@ }),
    {
        Fraction { numerator, denominator }
    }

    /// Returns `true` when this fraction is at least `numerator / denominator`.
    pub fn is_at_least(&self, numerator: i64, denominator: u64) -> (r: bool)
        ensures
            r == self@.at_least(numerator as int, denominator as int),
    {
        let left = self.numerator.times(&Integer::from_u128(denominator as u128));
        let right = Integer::from_i64(numerator).times(&self.denominator);
        left.is_at_least(&right)
    }

    /// Returns `true` when this fraction is at most `numerator / denominator`.
    pub fn is_at_most(&self, numerator: i64, denominator: u64) -> (r: bool)
        ensures
            r == self@.at_most(numerator as int, denominator as int),
    {
        let left = self.numerator.times(&Integer::from_u128(denominator as u128));
        let right = Integer::from_i64(numerator).times(&self.denominator);
        right.is_at_least(&left)
    }

    /// Returns `true` when this fraction is exactly `numerator / denominator`.
    pub fn is_exactly(&self, numerator: i64, denominator: u64) -> (r: bool)
        ensures
            r == self@.equals(numerator as int, denominator as int),
    {
        let left = self.numerator.times(&Integer::from_u128(denominator as u128));
        let right = Integer::from_i64(numerator).times(&self.denominator);
        left.minus(&right).is_zero()
    }

    /// Returns what is divided.
    pub fn numerator(&self) -> (n: &Integer)
        ensures
            n@ == self@.numerator,
    {
        &self.numerator
    }

    /// Returns what it is divided by.
    pub fn denominator(&self) -> (n: &Integer)
        ensures
            n@ == self@.denominator,
    {
        &self.denominator
    }
}

impl Clone for Fraction {
    fn clone(&self) -> (f: Fraction)
        ensures
            f@ == self@,
    {
        Fraction { numerator: self.numerator.clone(), denominator: self.denominator.clone() }
    }
}

/// Quotients compare like the fractions they are: one is at least and at most another
/// only where it equals it, one of the two always holds, and writing the other in
/// other terms changes nothing.
pub proof fn quotients_compare_like_fractions(q: Quotient, n: int, d: int, k: int)
    requires
        q.denominator > 0,
        d > 0,
        k > 0,
    ensures
        q.at_least(n, d) || q.at_most(n, d),
        q.at_least(n, d) && q.at_most(n, d) <==> q.equals(n, d),
        q.at_least(n, d) <==> q.at_least(k * n, k * d),
        q.at_most(n, d) <==> q.at_most(k * n, k * d),
        q.equals(q.numerator, q.denominator),
        !q.at_least(q.numerator + k, q.denominator),
        !q.at_most(q.numerator - k, q.denominator),
{
    let (a, b) = (q.numerator, q.denominator);
    let (l, r) = (a * d, n * b);
    assert(a * (k * d) == k * l && (k * n) * b == k * r) by (nonlinear_arith)
        requires
            l == a * d,
            r == n * b,
    ;
    assert(k * l >= k * r <==> l >= r) by (nonlinear_arith)
        requires
            k > 0,
    ;
    assert(k * l <= k * r <==> l <= r) by (nonlinear_arith)
        requires
            k > 0,
    ;
    assert(a * b < (a + k) * b && (a - k) * b < a * b) by (nonlinear_arith)
        requires
            b > 0,
            k > 0,
    ;
}

} // verus!
