//! Exact fractions.

use vstd::prelude::*;

verus! {

/// A fraction of two whole numbers, kept exactly.
///
/// Rates such as "hits per lookup" are reported as a fraction; whoever shows
/// them divides at the end.
#[derive(Debug, Clone, Copy, PartialEq, Eq, Hash, Structural)]
pub struct Ratio {
    /// The part counted.
    pub numerator: u64,
    /// The whole it is a part of.
    pub denominator: u64,
}

impl Ratio {
    /// A fraction makes sense when it is a part of something.
    pub open spec fn wf(self) -> bool {
        self.denominator > 0
    }

    /// The fraction `numerator / denominator`.
    pub fn new(numerator: u64, denominator: u64) -> (r: Ratio)
        requires
            denominator > 0,
        ensures
            r == (Ratio { numerator, denominator }),
            r.wf(),
    {
        Ratio { numerator, denominator }
    }

    /// The fraction of `part` in `whole`, or nothing at all of an empty whole.
    pub fn of(part: u64, whole: u64) -> (r: Ratio)
        ensures
            r == Ratio::share(part as nat, whole as nat),
            r.wf(),
    {
        if whole == 0 {
            Ratio { numerator: 0, denominator: 1 }
        } else {
            Ratio { numerator: part, denominator: whole }
        }
    }

    /// The fraction of `part` in `whole`: zero where the whole is empty.
    pub open spec fn share(part: nat, whole: nat) -> Ratio {
        if whole == 0 {
            Ratio { numerator: 0, denominator: 1 }
        } else {
            Ratio { numerator: part as u64, denominator: whole as u64 }
        }
    }

    /// Returns `true` when `part` is no larger a share of `whole` than this
    /// fraction.
    pub fn admits(&self, part: u64, whole: u64) -> (r: bool)
        ensures
            r == (part * self.denominator <= self.numerator * whole),
    {
        assert(part * self.denominator <= u64::MAX * u64::MAX) by (nonlinear_arith)
            requires
                part <= u64::MAX,
                self.denominator <= u64::MAX,
        ;
        assert(self.numerator * whole <= u64::MAX * u64::MAX) by (nonlinear_arith)
            requires
                whole <= u64::MAX,
                self.numerator <= u64::MAX,
        ;
        (part as u128) * (self.denominator as u128) <= (self.numerator as u128) * (whole as u128)
    }
}

/// A share is part over whole, and nothing of nothing.
pub proof fn shares_are_part_over_whole(part: nat, whole: nat)
    requires
        part <= u64::MAX,
        whole <= u64::MAX,
    ensures
        Ratio::share(part, whole).denominator > 0,
        whole > 0 ==> Ratio::share(part, whole).numerator * whole == part * Ratio::share(
            part,
            whole,
        ).denominator,
        whole == 0 ==> Ratio::share(part, whole).numerator == 0,
{
    assert(part * whole == whole * part) by (nonlinear_arith);
}

} // verus!
