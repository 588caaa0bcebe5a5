//! CPU load of a process, as the operating system's sampler reports it.

use vstd::arithmetic::div_mod::{lemma_basic_div, lemma_div_denominator, lemma_div_multiples_vanish};
use vstd::arithmetic::power2::{
    lemma2_to64, lemma2_to64_rest, lemma_pow2_adds, lemma_pow2_pos, lemma_pow2_strictly_increases,
    pow2,
};
use vstd::bits::{lemma_u64_shl_is_mul, lemma_u64_shr_is_div};
use vstd::prelude::*;

verus! {

/// A CPU load in percent, kept as the bit pattern of an IEEE 754 single-precision number.
#[derive(Debug, Clone, Copy, PartialEq, Eq, Structural)]
pub struct CpuUsage {
    pub bits: u32,
}

/// The load, in percent, that a process has to exceed to count as pegged.
pub const PEGGED_PERCENT: u32 = 80;

impl CpuUsage {
    /// Whether the sign bit is set.
    pub open spec fn negative(self) -> bool {
        self.bits >= 0x8000_0000
    }

    /// The biased exponent.
    pub open spec fn exponent(self) -> int {
        (self.bits as int / 0x80_0000) % 256
    }

    /// The fraction bits.
    pub open spec fn fraction(self) -> int {
        self.bits as int % 0x80_0000
    }

    pub open spec fn is_nan(self) -> bool {
        self.exponent() == 255 && self.fraction() != 0
    }

    pub open spec fn is_infinite(self) -> bool {
        self.exponent() == 255 && self.fraction() == 0
    }

    /// The absolute value of a finite number, in units of 2^-149 (the smallest positive number).
    pub open spec fn magnitude(self) -> int {
        if self.exponent() == 0 {
            self.fraction()
        } else {
            (0x80_0000 + self.fraction()) * pow2((self.exponent() - 1) as nat)
        }
    }

    /// Whether the load is greater than `percent`. Not-a-number is greater than nothing.
    pub open spec fn exceeds(self, percent: nat) -> bool {
        &&& !self.is_nan()
        &&& !self.negative()
        &&& self.is_infinite() || self.magnitude() > percent * pow2(149)
    }

    /// The load rounded towards zero to a `u64`. What lies outside of `u64` becomes its nearest
    /// end, and not-a-number becomes 0.
    pub open spec fn whole(self) -> int {
        if self.is_nan() || self.negative() {
            0
        } else if self.is_infinite() || self.magnitude() / (pow2(149) as int) > u64::MAX {
            u64::MAX as int
        } else {
            self.magnitude() / (pow2(149) as int)
        }
    }

    /// Whether the process keeps a core busy without yielding.
    pub fn is_pegged(&self) -> (pegged: bool)
        ensures
            pegged == self.exceeds(PEGGED_PERCENT as nat),
    {
        if self.bits >= 0x8000_0000 {
            return false;
        }
        let exponent: u32 = (self.bits / 0x80_0000) % 256;
        let fraction: u32 = self.bits % 0x80_0000;
        if exponent == 255 {
            return fraction == 0;
        }
        proof {
            lemma_pegged(*self);
        }
        exponent > 133 || (exponent == 133 && fraction > 0x20_0000)
    }

    /// The load in whole percent, as a cast to `u64` gives it.
    pub fn whole_percent(&self) -> (percent: u64)
        ensures
            percent == self.whole(),
    {
        if self.bits >= 0x8000_0000 {
            return 0;
        }
        let exponent: u32 = (self.bits / 0x80_0000) % 256;
        let fraction: u32 = self.bits % 0x80_0000;
        if exponent == 255 {
            return if fraction == 0 {
                u64::MAX
            } else {
                0
            };
        }
        let significand: u64 = 0x80_0000 + fraction as u64;
        proof {
            lemma_whole(*self);
        }
        if exponent <= 126 {
            0
        } else if exponent < 150 {
            let shift: u64 = (150 - exponent) as u64;
            proof {
                lemma_u64_shr_is_div(significand, shift);
            }
            significand >> shift
        } else if exponent <= 190 {
            let shift: u64 = (exponent - 150) as u64;
            proof {
                lemma_u64_shl_is_mul(significand, shift);
            }
            significand << shift
        } else {
            u64::MAX
        }
    }
}

/// Where the magnitude of a finite number lies with respect to 80 percent.
pub(crate) proof fn lemma_pegged(usage: CpuUsage)
    requires
        usage.exponent() < 255,
    ensures
        usage.exponent() < 133 ==> usage.magnitude() <= 80 * pow2(149),
        usage.exponent() == 133 ==> (usage.magnitude() > 80 * pow2(149) <==> usage.fraction()
            > 0x20_0000),
        usage.exponent() > 133 ==> usage.magnitude() > 80 * pow2(149),
{
    let e = usage.exponent();
    let m = 0x80_0000 + usage.fraction();
    lemma2_to64();
    lemma_pow2_adds(17, 132);
    lemma_pow2_pos(132);
    let p = pow2(132) as int;
    assert(pow2(149) == 0x2_0000 * p);
    if e == 0 {
        lemma_pow2_adds(24, 125);
        lemma_pow2_pos(125);
    } else if e == 133 {
        assert(m * p > 0xA0_0000 * p <==> m > 0xA0_0000) by (nonlinear_arith)
            requires
                p > 0,
        ;
    } else if e < 133 {
        let q = pow2((e - 1) as nat) as int;
        lemma_pow2_pos((e - 1) as nat);
        lemma_pow2_strictly_increases((e - 1) as nat, 132);
        assert(2 * q <= p) by {
            lemma_pow2_adds(1, (e - 1) as nat);
            if e < 132 {
                lemma_pow2_strictly_increases(e as nat, 132);
            }
        }
        assert(m * q <= 0xA0_0000 * p) by (nonlinear_arith)
            requires
                0 <= m <= 0x100_0000,
                0 < q,
                2 * q <= p,
        ;
    } else {
        let q = pow2((e - 1) as nat) as int;
        lemma_pow2_adds(1, 132);
        assert(q >= 2 * p) by {
            if e > 134 {
                lemma_pow2_strictly_increases(133, (e - 1) as nat);
            }
        }
        assert(m * q > 0xA0_0000 * p) by (nonlinear_arith)
            requires
                m >= 0x80_0000,
                p > 0,
                q >= 2 * p,
        ;
    }
}

/// The integral part of a finite number, by its exponent.
pub(crate) proof fn lemma_whole(usage: CpuUsage)
    requires
        usage.exponent() < 255,
    ensures
        ({
            let e = usage.exponent();
            let m = 0x80_0000 + usage.fraction();
            let whole = usage.magnitude() / (pow2(149) as int);
            &&& e <= 126 ==> whole == 0
            &&& 126 < e < 150 ==> whole == m / (pow2((150 - e) as nat) as int) && whole <= u64::MAX
            &&& 150 <= e <= 190 ==> whole == m * pow2((e - 150) as nat) && whole <= u64::MAX
            &&& 190 < e ==> whole > u64::MAX
        }),
{
    let e = usage.exponent();
    let m = 0x80_0000 + usage.fraction();
    let unit = pow2(149) as int;
    lemma2_to64();
    lemma2_to64_rest();
    lemma_pow2_pos(149);
    if e == 0 {
        lemma_pow2_adds(24, 125);
        lemma_pow2_pos(125);
        assert(usage.magnitude() / unit == 0) by {
            lemma_basic_div(usage.magnitude(), unit);
        }
    } else if e < 150 {
        let low = pow2((e - 1) as nat) as int;
        let high = pow2((150 - e) as nat) as int;
        lemma_pow2_pos((e - 1) as nat);
        lemma_pow2_pos((150 - e) as nat);
        lemma_pow2_adds((e - 1) as nat, (150 - e) as nat);
        lemma_div_denominator(m * low, low, high);
        lemma_div_multiples_vanish(m, low);
        assert(low * m == m * low) by (nonlinear_arith);
        assert(usage.magnitude() / unit == m / high);
        if e <= 126 {
            if e < 126 {
                lemma_pow2_strictly_increases(24, (150 - e) as nat);
            }
            lemma_basic_div(m, high);
        } else {
            assert(m / high <= m) by (nonlinear_arith)
                requires
                    m >= 0,
                    high >= 1,
            ;
        }
    } else {
        let factor = pow2((e - 150) as nat) as int;
        lemma_pow2_adds((e - 150) as nat, 149);
        lemma_div_multiples_vanish(m * factor, unit);
        assert(m * (factor * unit) == unit * (m * factor)) by (nonlinear_arith);
        assert(usage.magnitude() / unit == m * factor);
        if e <= 190 {
            if e < 190 {
                lemma_pow2_strictly_increases((e - 150) as nat, 40);
            }
            assert(m * factor <= 0xff_ffff * 0x100_0000_0000) by (nonlinear_arith)
                requires
                    0 <= m <= 0xff_ffff,
                    0 <= factor <= 0x100_0000_0000,
            ;
        } else {
            if e > 191 {
                lemma_pow2_strictly_increases(41, (e - 150) as nat);
            }
            assert(m * factor >= 0x80_0000 * 0x200_0000_0000) by (nonlinear_arith)
                requires
                    m >= 0x80_0000,
                    factor >= 0x200_0000_0000,
            ;
        }
    }
}

} // verus!
