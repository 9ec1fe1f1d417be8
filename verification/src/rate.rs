//! Transfer rates, kept to a fraction of a byte.

use crate::ratio::Ratio;
use crate::smoothing;
use crate::time::Duration;
use vstd::prelude::*;

verus! {

/// How many units make one byte per second.
pub const UNITS: u128 = 0x1_0000_0000;

/// How many units of rate, over one nanosecond, move one byte.
pub const UNIT_NANOS: u128 = 1_000_000_000 * UNITS;

/// A transfer rate, in units of 2^-32 bytes per second.
#[derive(Debug, Clone, Copy, PartialEq, Eq, PartialOrd, Ord, Hash, Structural)]
pub struct Rate {
    units: u128,
}

/// The units of a rate of `bytes` in `nanos` nanoseconds, to the unit below.
pub open spec fn rate_of(bytes: nat, nanos: nat) -> nat {
    bytes * UNIT_NANOS as nat / nanos
}

/// The whole bytes that a rate of so many units moves in `nanos` nanoseconds, as
/// far as 64 bits hold them.
pub open spec fn volume(units: nat, nanos: nat) -> nat {
    let bytes = units * nanos / UNIT_NANOS as nat;
    if bytes <= u64::MAX {
        bytes
    } else {
        u64::MAX as nat
    }
}

/// The whole bytes per second of a rate, as far as 64 bits hold them.
pub open spec fn whole_bytes_of(units: nat) -> nat {
    if units / UNITS as nat <= u64::MAX {
        units / UNITS as nat
    } else {
        u64::MAX as nat
    }
}

/// The units of a rate, where there is one.
pub open spec fn units_of(rate: Option<Rate>) -> Option<nat> {
    match rate {
        Some(r) => Some(r@),
        None => None,
    }
}

impl View for Rate {
    type V = nat;

    closed spec fn view(&self) -> nat {
        self.units as nat
    }
}

impl Rate {
    /// Two rates of as many units are the same rate.
    pub proof fn same_units(a: Rate, b: Rate)
        ensures
            a@ == b@ <==> a == b,
    {
    }

    /// No transfer at all.
    pub fn zero() -> (r: Rate)
        ensures
            r@ == 0,
    {
        Rate { units: 0 }
    }

    /// The rate at which `bytes` move in `elapsed`.
    pub fn of(bytes: u64, elapsed: Duration) -> (r: Rate)
        requires
            elapsed.nanos() > 0,
        ensures
            r@ == rate_of(bytes as nat, elapsed.nanos()),
    {
        let amount: u128 = (bytes as u128) * UNIT_NANOS;
        let nanos: u128 = elapsed.as_nanos();
        assert(amount / nanos <= amount) by (nonlinear_arith)
            requires
                nanos > 0,
                amount >= 0,
        ;
        Rate { units: amount / nanos }
    }

    /// Returns the units of the rate: 2^32 of them make one byte per second.
    pub fn units(&self) -> (n: u128)
        ensures
            n == self@,
    {
        self.units
    }

    /// Returns the whole bytes per second, as far as 64 bits hold them.
    pub fn whole_bytes(&self) -> (n: u64)
        ensures
            n == whole_bytes_of(self@),
    {
        let whole: u128 = self.units / UNITS;
        if whole <= u64::MAX as u128 {
            whole as u64
        } else {
            u64::MAX
        }
    }

    /// Returns `true` if the rate is at most `limit` bytes per second.
    pub fn is_at_most(&self, limit: u64) -> (r: bool)
        ensures
            r == (self@ <= limit * UNITS),
    {
        self.units <= (limit as u128) * UNITS
    }

    /// Returns the faster of two rates.
    pub fn faster(self, other: Rate) -> (r: Rate)
        ensures
            r@ == if other@ > self@ {
                other@
            } else {
                self@
            },
    {
        if other.units > self.units {
            other
        } else {
            self
        }
    }

    /// Returns the whole bytes that move at this rate in `span`, as far as 64
    /// bits hold them.
    pub fn over(&self, span: Duration) -> (bytes: u64)
        ensures
            bytes == volume(self@, span.nanos()),
    {
        let nanos: u128 = span.as_nanos();
        match self.units.checked_mul(nanos) {
            Some(amount) => {
                let bytes: u128 = amount / UNIT_NANOS;
                if bytes <= u64::MAX as u128 {
                    bytes as u64
                } else {
                    u64::MAX
                }
            },
            None => u64::MAX,
        }
    }

    /// Returns the average rate after a transfer at the rate `sample`.
    pub fn averaged(current: Option<Rate>, sample: Rate, share: Ratio) -> (r: Rate)
        requires
            smoothing::is_share(share),
        ensures
            r@ == smoothing::averaged(units_of(current), sample@, share),
    {
        let known = match current {
            Some(c) => Some(c.units),
            None => None,
        };
        Rate { units: smoothing::average(known, sample.units, share) }
    }
}

/// A rate is what was moved for the time it took: over that time it moves no more
/// than that, and one unit more would move at least as much.
pub proof fn rates_are_bytes_over_time(bytes: nat, nanos: nat)
    requires
        nanos > 0,
    ensures
        rate_of(bytes, nanos) * nanos <= bytes * 1_000_000_000 * 0x1_0000_0000,
        bytes * 1_000_000_000 * 0x1_0000_0000 < (rate_of(bytes, nanos) + 1) * nanos,
{
    let amount = bytes * UNIT_NANOS as nat;
    let r = rate_of(bytes, nanos);
    vstd::arithmetic::div_mod::lemma_fundamental_div_mod(amount as int, nanos as int);
    assert(r * nanos <= amount < (r + 1) * nanos) by (nonlinear_arith)
        requires
            amount == nanos * r + amount as int % nanos as int,
            0 <= amount as int % (nanos as int) < nanos,
    ;
    assert(amount == bytes * 1_000_000_000 * 0x1_0000_0000) by (nonlinear_arith)
        requires
            amount == bytes * 4_294_967_296_000_000_000,
    ;
}

/// What a rate moves in a time is rate times time, to the byte below; beyond 64
/// bits it counts as the most that they hold. The whole bytes per second are what
/// it moves in a second.
pub proof fn volumes_are_rate_times_time(units: nat, nanos: nat)
    ensures
        ({
            let (moved, scale) = (units * nanos, 1_000_000_000 * 0x1_0000_0000int);
            if moved < scale * 0x1_0000_0000_0000_0000 {
                volume(units, nanos) * scale <= moved < (volume(units, nanos) + 1) * scale
            } else {
                volume(units, nanos) == u64::MAX
            }
        }),
        ({
            let scale = 0x1_0000_0000int;
            if units < scale * 0x1_0000_0000_0000_0000 {
                whole_bytes_of(units) * scale <= units < (whole_bytes_of(units) + 1) * scale
            } else {
                whole_bytes_of(units) == u64::MAX
            }
        }),
{
    let moved = units * nanos;
    vstd::arithmetic::div_mod::lemma_fundamental_div_mod(moved as int, UNIT_NANOS as int);
}

} // verus!
