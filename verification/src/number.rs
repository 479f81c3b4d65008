//! IEEE 754 numbers held as their bit patterns.
//!
//! The control logic compares, orders, and validates the decibel, hertz, and quality figures
//! of a tuning but never does filter arithmetic on them, so it keeps each figure as the bits
//! of its floating-point form. `Single::value` and `Double::nearest` say what the bits mean.

use vstd::prelude::*;
use vstd::arithmetic::power2::*;
use vstd::arithmetic::mul::*;
use vstd::arithmetic::div_mod::*;
use vstd::bits::*;

verus! {

/// A single-precision number, by its bits.
#[derive(Clone, Copy, Debug, PartialEq, Eq, Structural)]
pub struct Single {
    pub bits: u32,
}

/// What the bits below the sign say, in units of the smallest positive number.
pub open spec fn magnitude_of(m: int) -> int {
    if m < 0x80_0000 {
        m
    } else {
        (0x80_0000 + m % 0x80_0000) * pow2((m / 0x80_0000 - 1) as nat)
    }
}

impl Single {
    /// Whether the sign bit is set.
    pub open spec fn negative(self) -> bool {
        self.bits >= 0x8000_0000
    }

    /// The bits below the sign.
    pub open spec fn magnitude_bits(self) -> int {
        if self.negative() {
            self.bits - 0x8000_0000
        } else {
            self.bits as int
        }
    }

    /// Neither infinite nor NaN.
    pub open spec fn finite(self) -> bool {
        self.magnitude_bits() < 0x7f80_0000
    }

    /// Not a number.
    pub open spec fn nan(self) -> bool {
        self.magnitude_bits() > 0x7f80_0000
    }

    /// The place of a number among all numbers: larger numbers have larger ranks, and the two
    /// zeros share a rank.
    pub open spec fn rank(self) -> int {
        if self.negative() {
            -self.magnitude_bits()
        } else {
            self.magnitude_bits()
        }
    }

    /// The exact value of a finite number, in units of two to the power of -149.
    pub open spec fn value(self) -> int {
        if self.negative() {
            -magnitude_of(self.magnitude_bits())
        } else {
            magnitude_of(self.magnitude_bits())
        }
    }

    /// Numeric equality: NaN equals nothing, and the two zeros are equal.
    pub open spec fn equals(self, other: Single) -> bool {
        !self.nan() && !other.nan() && self.rank() == other.rank()
    }

    /// The number with these bits.
    pub fn from_bits(bits: u32) -> (s: Single)
        ensures
            s.bits == bits,
    {
        Single { bits }
    }

    /// The bits below the sign.
    pub fn low_bits(self) -> (m: u32)
        ensures
            m == self.magnitude_bits(),
    {
        if self.bits >= 0x8000_0000 {
            self.bits - 0x8000_0000
        } else {
            self.bits
        }
    }

    /// Whether the number is neither infinite nor NaN.
    pub fn is_finite(self) -> (r: bool)
        ensures
            r == self.finite(),
    {
        self.low_bits() < 0x7f80_0000
    }

    /// Whether two finite numbers stand in the order `self <= other`.
    pub fn at_most(self, other: Single) -> (r: bool)
        requires
            self.finite(),
            other.finite(),
        ensures
            r == (self.value() <= other.value()),
    {
        proof {
            rank_orders_values(self, other);
            rank_orders_values(other, self);
        }
        let a = self.low_bits();
        let b = other.low_bits();
        if self.bits >= 0x8000_0000 {
            if other.bits >= 0x8000_0000 {
                b <= a
            } else {
                true
            }
        } else if other.bits >= 0x8000_0000 {
            a == 0 && b == 0
        } else {
            a <= b
        }
    }

    /// Whether two numbers are numerically equal.
    pub fn same(self, other: Single) -> (r: bool)
        ensures
            r == self.equals(other),
    {
        let a = self.low_bits();
        let b = other.low_bits();
        if a > 0x7f80_0000 || b > 0x7f80_0000 {
            false
        } else if a == 0 && b == 0 {
            true
        } else {
            self.bits == other.bits
        }
    }

    /// Whether the size of the number, sign aside, is at least that of a positive finite
    /// `limit`. NaN is not.
    pub fn reaches(self, limit: Single) -> (r: bool)
        requires
            limit.finite(),
            !limit.negative(),
        ensures
            r == (!self.nan() && self.magnitude_bits() >= limit.bits),
            self.finite() ==> r == (self.value() >= limit.value() || self.value()
                <= -limit.value()),
    {
        let a = self.low_bits();
        proof {
            magnitude_monotone(self.magnitude_bits(), limit.bits as int);
            magnitude_monotone(limit.bits as int, self.magnitude_bits());
            magnitude_not_negative(self.magnitude_bits());
            magnitude_not_negative(limit.bits as int);
            if limit.bits == 0 {
                assert(limit.value() == 0);
            }
        }
        a <= 0x7f80_0000 && a >= limit.bits
    }

    /// Whether the size of the number, sign aside, is below a positive finite `limit`. NaN is
    /// not.
    pub fn below(self, limit: Single) -> (r: bool)
        requires
            limit.finite(),
            !limit.negative(),
        ensures
            r == (self.magnitude_bits() < limit.bits),
            r == (self.finite() && -limit.value() < self.value() < limit.value()),
    {
        let a = self.low_bits();
        proof {
            if self.finite() {
                magnitude_monotone(self.magnitude_bits(), limit.bits as int);
                magnitude_monotone(limit.bits as int, self.magnitude_bits());
            }
            magnitude_not_negative(self.magnitude_bits());
        }
        a < limit.bits
    }
}

/// No magnitude is negative.
pub proof fn magnitude_not_negative(m: int)
    requires
        0 <= m,
    ensures
        magnitude_of(m) >= 0,
        m > 0 ==> magnitude_of(m) > 0,
{
    if m >= 0x80_0000 {
        let e = (m / 0x80_0000 - 1) as nat;
        lemma_pow2_pos(e);
        lemma_mul_strictly_positive(0x80_0000 + m % 0x80_0000, pow2(e) as int);
    }
}

/// Larger bits below the sign mean a larger magnitude.
pub proof fn magnitude_monotone(a: int, b: int)
    requires
        0 <= a,
        0 <= b,
    ensures
        a < b ==> magnitude_of(a) < magnitude_of(b),
        a == b ==> magnitude_of(a) == magnitude_of(b),
{
    if a < b {
        let ea = a / 0x80_0000;
        let eb = b / 0x80_0000;
        let fa = a % 0x80_0000;
        let fb = b % 0x80_0000;
        if b >= 0x80_0000 {
            let pb = pow2((eb - 1) as nat) as int;
            lemma_pow2_pos((eb - 1) as nat);
            assert((0x80_0000 + fb) * pb >= 0x80_0000 * pb) by (nonlinear_arith)
                requires
                    pb > 0,
                    fb >= 0,
            ;
            if a < 0x80_0000 {
                assert(0x80_0000 * pb >= 0x80_0000) by (nonlinear_arith)
                    requires
                        pb > 0,
                ;
            } else {
                let pa = pow2((ea - 1) as nat) as int;
                lemma_pow2_pos((ea - 1) as nat);
                if ea == eb {
                    assert(fa < fb);
                    assert((0x80_0000 + fa) * pa < (0x80_0000 + fb) * pa) by (nonlinear_arith)
                        requires
                            pa > 0,
                            fa < fb,
                    ;
                } else {
                    assert(ea < eb);
                    lemma_pow2_adds((ea - 1) as nat, (eb - ea) as nat);
                    lemma_pow2_pos((eb - ea) as nat);
                    let d = pow2((eb - ea) as nat) as int;
                    lemma_pow2_unfold((eb - ea) as nat);
                    lemma_pow2_pos((eb - ea - 1) as nat);
                    assert(d >= 2);
                    assert(pb == pa * d);
                    assert((0x80_0000 + fa) * pa < 0x80_0000 * (pa * d)) by (nonlinear_arith)
                        requires
                            pa > 0,
                            fa < 0x80_0000,
                            d >= 2,
                    ;
                }
            }
        }
    }
}

/// The order of finite numbers by rank is their order by value.
pub proof fn rank_orders_values(a: Single, b: Single)
    requires
        a.finite(),
        b.finite(),
    ensures
        a.rank() < b.rank() <==> a.value() < b.value(),
        a.rank() == b.rank() <==> a.value() == b.value(),
{
    let x = a.magnitude_bits();
    let y = b.magnitude_bits();
    magnitude_not_negative(x);
    magnitude_not_negative(y);
    magnitude_monotone(x, y);
    magnitude_monotone(y, x);
}

/// A double-precision number, by its bits.
#[derive(Clone, Copy, Debug, PartialEq, Eq, Structural)]
pub struct Double {
    pub bits: u64,
}

impl Double {
    pub open spec fn negative(self) -> bool {
        self.bits >= 0x8000_0000_0000_0000
    }

    /// The bits below the sign.
    pub open spec fn magnitude_bits(self) -> int {
        if self.negative() {
            self.bits - 0x8000_0000_0000_0000
        } else {
            self.bits as int
        }
    }

    /// Neither infinite nor NaN.
    pub open spec fn finite(self) -> bool {
        self.magnitude_bits() < 0x7ff0_0000_0000_0000
    }

    /// Not a number.
    pub open spec fn nan(self) -> bool {
        self.magnitude_bits() > 0x7ff0_0000_0000_0000
    }

    /// A finite number's magnitude, rounded to the nearest whole number, halves upwards.
    pub open spec fn nearest(self) -> int {
        let e = self.magnitude_bits() / 0x10_0000_0000_0000;
        let sig = 0x10_0000_0000_0000 + self.magnitude_bits() % 0x10_0000_0000_0000;
        if e == 0 {
            0
        } else if e >= 1075 {
            sig * pow2((e - 1075) as nat)
        } else {
            let d = pow2((1075 - e) as nat);
            (2 * sig + d) / (2 * d as int)
        }
    }

    /// The number rounded to a whole number that a `u32` can hold: what lies outside the
    /// range becomes the nearest end of it, and NaN becomes zero.
    pub open spec fn rounded(self) -> int {
        if self.nan() || self.negative() {
            0
        } else if !self.finite() || self.nearest() > u32::MAX {
            u32::MAX as int
        } else {
            self.nearest()
        }
    }

    /// The number with these bits.
    pub fn from_bits(bits: u64) -> (s: Double)
        ensures
            s.bits == bits,
    {
        Double { bits }
    }

    /// Whether the number is finite and above zero.
    pub fn is_positive(self) -> (r: bool)
        ensures
            r == (self.finite() && !self.negative() && self.magnitude_bits() > 0),
    {
        self.bits > 0 && self.bits < 0x7ff0_0000_0000_0000
    }

    /// The number rounded to a `u32`, halves away from zero.
    pub fn round(self) -> (n: u32)
        ensures
            n == self.rounded(),
    {
        if self.bits >= 0x8000_0000_0000_0000 || self.bits > 0x7ff0_0000_0000_0000 {
            return 0;
        }
        if self.bits == 0x7ff0_0000_0000_0000 {
            return u32::MAX;
        }
        let e: u64 = self.bits / 0x10_0000_0000_0000;
        let sig: u64 = 0x10_0000_0000_0000 + self.bits % 0x10_0000_0000_0000;
        if e == 0 {
            return 0;
        }
        if e >= 1075 {
            proof {
                let p = pow2((e - 1075) as nat) as int;
                lemma_pow2_pos((e - 1075) as nat);
                assert(sig * p >= sig) by (nonlinear_arith)
                    requires
                        p >= 1,
                        sig >= 0,
                ;
            }
            return u32::MAX;
        }
        let k: u64 = 1075 - e;
        if k >= 55 {
            proof {
                let d = pow2(k as nat) as int;
                lemma2_to64();
                lemma2_to64_rest();
                if k > 55 {
                    lemma_pow2_strictly_increases(55, k as nat);
                }
                assert(2 * sig + d < 2 * d);
                lemma_basic_div(2 * sig + d, 2 * d);
            }
            return 0;
        }
        let d: u64 = 1u64 << k;
        proof {
            lemma2_to64();
            lemma2_to64_rest();
            if k < 54 {
                lemma_pow2_strictly_increases(k as nat, 54);
            }
            lemma_pow2_pos(k as nat);
            lemma_u64_shl_is_mul(1, k);
            assert(d == pow2(k as nat));
        }
        let n: u64 = (2 * sig + d) / (2 * d);
        if n > 0xffff_ffff {
            u32::MAX
        } else {
            n as u32
        }
    }
}

/// Equality of numbers is that of their values: finite numbers are equal exactly when their
/// values are, an infinity equals itself alone, and NaN equals nothing.
pub proof fn equality_is_numeric(a: Single, b: Single)
    ensures
        a.finite() && b.finite() ==> (a.equals(b) <==> a.value() == b.value()),
        a.finite() && !b.finite() ==> !a.equals(b),
        !a.finite() && !a.nan() ==> (a.equals(b) <==> a.bits == b.bits),
        a.nan() ==> !a.equals(b),
        a.equals(b) <==> b.equals(a),
{
    if a.finite() && b.finite() {
        rank_orders_values(a, b);
    }
}

/// Rounding gives the nearest whole number: where the number is `sig / d`, no other whole number
/// is nearer than the rounded one, and of two that are as near it is the larger one. Negative
/// numbers and NaN give zero, and what is too large gives the largest number there is.
pub proof fn rounding_is_to_the_nearest(x: Double)
    ensures
        x.nan() || x.negative() ==> x.rounded() == 0,
        !x.negative() && !x.nan() && !x.finite() ==> x.rounded() == u32::MAX,
        0 <= x.rounded() <= u32::MAX,
        ({
            let e = x.magnitude_bits() / 0x10_0000_0000_0000;
            let sig = 0x10_0000_0000_0000 + x.magnitude_bits() % 0x10_0000_0000_0000;
            let d = pow2((1075 - e) as nat) as int;
            let n = x.rounded();
            &&& !x.negative() && e == 0 ==> n == 0
            &&& !x.negative() && x.finite() && 1075 <= e ==> n == u32::MAX
            &&& !x.negative() && 0 < e < 1075 && n < u32::MAX ==> -d <= 2 * sig - 2 * (n * d) < d
        }),
{
    let e = x.magnitude_bits() / 0x10_0000_0000_0000;
    let sig = 0x10_0000_0000_0000 + x.magnitude_bits() % 0x10_0000_0000_0000;
    if 0 < e < 1075 {
        let d = pow2((1075 - e) as nat) as int;
        lemma_pow2_pos((1075 - e) as nat);
        lemma_fundamental_div_mod(2 * sig + d, 2 * d);
        let n = (2 * sig + d) / (2 * d);
        assert((2 * d) * n == 2 * (n * d)) by (nonlinear_arith);
        assert(n >= 0) by {
            lemma_div_pos_is_pos(2 * sig + d, 2 * d);
        }
    } else if e >= 1075 {
        let p = pow2((e - 1075) as nat) as int;
        lemma_pow2_pos((e - 1075) as nat);
        assert(sig * p >= sig) by (nonlinear_arith)
            requires
                p >= 1,
                sig >= 0,
        ;
    }
}

} // verus!
