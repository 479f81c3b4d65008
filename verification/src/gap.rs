//! The distance between any two single-precision numbers, as single-precision subtraction
//! gives it: exact, then rounded once to the nearest representable number.

use vstd::prelude::*;
use vstd::arithmetic::power2::*;
use vstd::arithmetic::div_mod::*;
use vstd::bits::*;
use crate::number::{magnitude_monotone, magnitude_not_negative, magnitude_of, Single};

verus! {

/// The spacing of single-precision numbers around the whole number `d`.
pub open spec fn spacing(d: nat) -> nat
    decreases d,
{
    if d < 0x100_0000 {
        1
    } else {
        2 * spacing(d / 2)
    }
}

/// `d` rounded to single precision: to the nearest multiple of the spacing, and at equal
/// distance to the even one.
pub open spec fn to_single(d: nat) -> nat {
    let step = spacing(d);
    let q = d / step;
    let r = d % step;
    if 2 * r > step || (2 * r == step && q % 2 == 1) {
        (q + 1) * step
    } else {
        q * step
    }
}

/// The bits of infinity.
pub const INFINITY_BITS: u32 = 0x7f80_0000;

/// The bits of a number that is not a number. It stands above infinity.
pub const NAN_BITS: u32 = 0x7fc0_0000;

/// The exact distance between two finite numbers, in units of two to the power of -149.
pub open spec fn exact_gap(a: Single, b: Single) -> nat {
    if a.value() < b.value() {
        (b.value() - a.value()) as nat
    } else {
        (a.value() - b.value()) as nat
    }
}

/// What is too large to be represented becomes infinite.
pub open spec fn capped(d: nat) -> int {
    if d < magnitude_of(INFINITY_BITS as int) {
        d as int
    } else {
        magnitude_of(INFINITY_BITS as int)
    }
}

/// The distance between two numbers as single-precision subtraction gives it, in units of two
/// to the power of -149. It is infinite where it is out of range or one number is infinite.
/// From NaN, and between equal infinities, it is NaN, which counts as farther than infinity.
pub open spec fn gap(a: Single, b: Single) -> int {
    if a.nan() || b.nan() || (!a.finite() && a.bits == b.bits) {
        magnitude_of(NAN_BITS as int)
    } else if !a.finite() || !b.finite() {
        magnitude_of(INFINITY_BITS as int)
    } else {
        capped(to_single(exact_gap(a, b)))
    }
}

/// The spacing divides large numbers into quotients of twenty-four bits.
pub proof fn spacing_facts(d: nat)
    ensures
        spacing(d) > 0,
        d >= 0x100_0000 ==> 0x80_0000 <= d / spacing(d) < 0x100_0000,
        d < 0x100_0000 ==> spacing(d) == 1,
    decreases d,
{
    if d >= 0x100_0000 {
        spacing_facts(d / 2);
        let s = spacing(d / 2) as int;
        vstd::arithmetic::div_mod::lemma_div_denominator(d as int, 2, s);
        if d / 2 < 0x100_0000 {
            assert(d as int / 2 / 1 == d as int / 2);
        }
    }
}

/// Rounding never more than doubles a number.
pub proof fn rounding_at_most_doubles(d: nat)
    ensures
        to_single(d) <= 2 * d,
{
    spacing_facts(d);
    let s = spacing(d) as int;
    let q = d as int / s;
    lemma_fundamental_div_mod(d as int, s);
    if d < 0x100_0000 {
        assert(d % 1 == 0 && d / 1 == d);
    } else {
        assert((q + 1) * s <= 2 * (s * q)) by (nonlinear_arith)
            requires
                q >= 1,
                s >= 1,
        ;
        assert(q * s == s * q) by (nonlinear_arith);
    }
}

/// Doubling a number doubles its rounded form.
proof fn rounding_doubles(d: nat)
    ensures
        to_single(2 * d) == 2 * to_single(d),
{
    spacing_facts(d);
    let s = spacing(d) as int;
    let q = d as int / s;
    let r = d as int % s;
    if d >= 0x80_0000 {
        assert((2 * d) / 2 == d);
        assert(spacing(2 * d) == 2 * spacing(d));
        lemma_fundamental_div_mod(d as int, s);
        assert(2 * d == q * (2 * s) + 2 * r) by (nonlinear_arith)
            requires
                d == s * q + r,
        ;
        lemma_fundamental_div_mod_converse(2 * d as int, 2 * s, q, 2 * r);
        assert((q + 1) * (2 * s) == 2 * ((q + 1) * s)) by (nonlinear_arith);
        assert(q * (2 * s) == 2 * (q * s)) by (nonlinear_arith);
    } else {
        assert(spacing(2 * d) == 1);
        assert((2 * d) % 1 == 0 && (2 * d) / 1 == 2 * d);
        assert(d % 1 == 0 && d / 1 == d);
    }
}

/// Rounding commutes with scaling by a power of two.
pub proof fn rounding_scales(d: nat, k: nat)
    ensures
        to_single(d * pow2(k)) == to_single(d) * pow2(k),
    decreases k,
{
    if k == 0 {
        lemma2_to64();
    } else {
        let j = (k - 1) as nat;
        rounding_scales(d, j);
        rounding_doubles(d * pow2(j));
        lemma_pow2_unfold(k);
        let p = pow2(j) as int;
        let r = to_single(d) as int;
        assert(d * (2 * p) == 2 * (d * p)) by (nonlinear_arith);
        assert(r * (2 * p) == 2 * (r * p)) by (nonlinear_arith);
    }
}

/// The spacing between two powers of two.
proof fn spacing_between_powers(d: nat, k: nat)
    requires
        k == 0 || 0x80_0000 * pow2(k) <= d,
        d < 0x100_0000 * pow2(k),
    ensures
        spacing(d) == pow2(k),
    decreases k,
{
    lemma2_to64();
    if k > 0 {
        let j = (k - 1) as nat;
        lemma_pow2_unfold(k);
        lemma_pow2_pos(j);
        assert(d >= 0x100_0000);
        spacing_between_powers(d / 2, j);
    }
}

/// A number that is far smaller than another does not change it.
proof fn far_smaller_is_lost(s: nat, n: nat, e: nat)
    requires
        0x80_0000 <= s < 0x100_0000,
        n >= 26,
        e < 0x100_0000,
    ensures
        s * pow2(n) >= e,
        to_single(s * pow2(n) + e) == s * pow2(n),
        to_single((s * pow2(n) - e) as nat) == s * pow2(n),
{
    lemma2_to64();
    if n > 26 {
        lemma_pow2_strictly_increases(26, n);
    }
    lemma_pow2_unfold(n);
    let p = pow2(n) as int;
    let h = pow2((n - 1) as nat) as int;
    let x = s * p;
    assert(0x80_0000 * p <= x && x + p <= 0x100_0000 * p) by (nonlinear_arith)
        requires
            x == s * p,
            0x80_0000 <= s,
            s + 1 <= 0x100_0000,
            p > 0,
    ;
    spacing_between_powers((x + e) as nat, n);
    lemma_fundamental_div_mod_converse(x + e, p, s as int, e as int);
    if e > 0 {
        if s > 0x80_0000 {
            assert(x - p >= 0x80_0000 * p) by (nonlinear_arith)
                requires
                    x == s * p,
                    s - 1 >= 0x80_0000,
                    p > 0,
            ;
            spacing_between_powers((x - e) as nat, n);
            assert(x - e == (s - 1) * p + (p - e)) by (nonlinear_arith)
                requires
                    x == s * p,
            ;
            lemma_fundamental_div_mod_converse(x - e, p, s - 1, p - e);
        } else {
            spacing_between_powers((x - e) as nat, (n - 1) as nat);
            assert(x - e == 0xff_ffff * h + (h - e));
            lemma_fundamental_div_mod_converse(x - e, h, 0xff_ffff, h - e);
        }
    }
}

/// How the bits of a number are made of its significand and exponent.
proof fn bits_of_parts(q: int, k: nat)
    requires
        0 <= q <= 0x100_0000,
        q >= 0x80_0000 || k == 0,
    ensures
        magnitude_of(k * 0x80_0000 + q) == q * pow2(k),
{
    lemma2_to64();
    let m = k * 0x80_0000 + q;
    if q == 0x100_0000 {
        assert(m / 0x80_0000 == k + 2 && m % 0x80_0000 == 0);
        lemma_pow2_unfold(k + 1);
    } else if q >= 0x80_0000 {
        assert(m / 0x80_0000 == k + 1 && m % 0x80_0000 == q - 0x80_0000);
    } else {
        assert(pow2(0) == 1);
    }
}

/// The exponent of a number above the smallest one, by its bits below the sign.
spec fn exponent(m: int) -> nat {
    if m < 0x80_0000 {
        0
    } else {
        (m / 0x80_0000 - 1) as nat
    }
}

/// The significand, by the bits below the sign.
spec fn significand(m: int) -> nat {
    if m < 0x80_0000 {
        m as nat
    } else {
        (0x80_0000 + m % 0x80_0000) as nat
    }
}

proof fn parts_make_magnitude(m: int)
    requires
        0 <= m,
    ensures
        magnitude_of(m) == significand(m) * pow2(exponent(m)),
        significand(m) < 0x100_0000,
        exponent(m) > 0 ==> significand(m) >= 0x80_0000,
{
    if m < 0x80_0000 {
        lemma2_to64();
        assert(m * pow2(0) == m);
    } else {
        assert(significand(m) as int == 0x80_0000 + m % 0x80_0000);
    }
}

fn parts(m: u32) -> (r: (u64, u32))
    ensures
        r.0 == significand(m as int),
        r.1 == exponent(m as int),
{
    if m < 0x80_0000 {
        (m as u64, 0)
    } else {
        ((0x80_0000 + m % 0x80_0000) as u64, m / 0x80_0000 - 1)
    }
}

/// `d` rounded to single precision, as a significand and the power of two that scales it.
fn round_parts(d: u64) -> (r: (u64, u32))
    requires
        d < 0x4000_0000_0000_0000,
    ensures
        r.0 <= 0x100_0000,
        r.1 < 62,
        r.0 * pow2(r.1 as nat) == to_single(d as nat),
{
    let mut step: u64 = 1;
    let mut rest: u64 = d;
    let mut k: u32 = 0;
    proof {
        lemma2_to64();
    }
    while rest >= 0x100_0000
        invariant
            d < 0x4000_0000_0000_0000,
            step * spacing(rest as nat) == spacing(d as nat),
            step * rest <= d,
            step >= 1,
            step == pow2(k as nat),
            k < 62,
        decreases rest,
    {
        proof {
            let r = rest as int;
            let s = step as int;
            let h = spacing((rest / 2) as nat) as int;
            assert(s * (2 * h) == (2 * s) * h) by (nonlinear_arith);
            assert((2 * s) * (r / 2) <= s * r) by (nonlinear_arith)
                requires
                    s >= 1,
                    r >= 0,
            ;
            assert(2 * s <= s * r) by (nonlinear_arith)
                requires
                    s >= 1,
                    r >= 2,
            ;
            lemma_pow2_unfold((k + 1) as nat);
            if k + 1 >= 62 {
                lemma2_to64_rest();
                assert(pow2(62) == 0x4000_0000_0000_0000);
                assert(false);
            }
        }
        step = 2 * step;
        rest = rest / 2;
        k = k + 1;
    }
    let q: u64 = d / step;
    let r: u64 = d % step;
    proof {
        assert(step * 1 == step);
        spacing_facts(d as nat);
        lemma_fundamental_div_mod(d as int, step as int);
    }
    if 2 * r > step || (2 * r == step && q % 2 == 1) {
        (q + 1, k)
    } else {
        (q, k)
    }
}

/// `d` rounded to single precision.
pub fn round_to_single(d: u64) -> (n: u64)
    requires
        d < 0x4000_0000_0000_0000,
    ensures
        n == to_single(d as nat),
{
    let (q, k) = round_parts(d);
    let step: u64 = 1u64 << (k as u64);
    proof {
        lemma2_to64();
        lemma2_to64_rest();
        lemma_pow2_strictly_increases(k as nat, 62);
        lemma_u64_shl_is_mul(1, k as u64);
        rounding_at_most_doubles(d as nat);
    }
    q * step
}

/// The bits of the number with this significand, at most twenty-four bits wide, and exponent.
fn pack(significand: u64, exponent: u32) -> (r: u32)
    requires
        significand <= 0x100_0000,
        exponent < 400,
    ensures
        magnitude_of(r as int) == capped((significand * pow2(exponent as nat)) as nat),
{
    let mut q: u64 = significand;
    let mut k: u32 = exponent;
    while q < 0x80_0000 && k > 0
        invariant
            q <= 0x100_0000,
            k < 400,
            q * pow2(k as nat) == significand * pow2(exponent as nat),
        decreases k,
    {
        proof {
            lemma_pow2_unfold(k as nat);
            let p = pow2((k - 1) as nat) as int;
            assert((2 * q) * p == q * (2 * p)) by (nonlinear_arith);
        }
        q = 2 * q;
        k = k - 1;
    }
    let bits: u32 = k * 0x80_0000 + q as u32;
    proof {
        bits_of_parts(q as int, k as nat);
        magnitude_not_negative(bits as int);
        magnitude_monotone(bits as int, INFINITY_BITS as int);
        magnitude_monotone(INFINITY_BITS as int, bits as int);
    }
    if bits < INFINITY_BITS {
        bits
    } else {
        INFINITY_BITS
    }
}

/// The bits of the rounded sum or difference of two magnitudes, the larger one first.
fn combine(x: u32, y: u32, sum: bool) -> (r: u32)
    requires
        y <= x < INFINITY_BITS,
    ensures
        magnitude_of(x as int) >= magnitude_of(y as int) >= 0,
        magnitude_of(r as int) == capped(
            to_single(
                if sum {
                    (magnitude_of(x as int) + magnitude_of(y as int)) as nat
                } else {
                    (magnitude_of(x as int) - magnitude_of(y as int)) as nat
                },
            ),
        ),
{
    let (sx, kx) = parts(x);
    let (sy, ky) = parts(y);
    proof {
        magnitude_monotone(y as int, x as int);
        magnitude_not_negative(y as int);
        parts_make_magnitude(x as int);
        parts_make_magnitude(y as int);
    }
    let n: u32 = kx - ky;
    let ghost w = pow2(n as nat) as int;
    let ghost u = pow2(ky as nat) as int;
    let ghost d = if sum { sx * w + sy } else { sx * w - sy };
    proof {
        lemma_pow2_pos(ky as nat);
        lemma_pow2_adds(n as nat, ky as nat);
        assert(sx * (w * u) == (sx * w) * u) by (nonlinear_arith);
        assert(sx * w >= sy) by (nonlinear_arith)
            requires
                (sx * w) * u >= sy * u,
                u > 0,
        ;
        assert((sx * w + sy) * u == (sx * w) * u + sy * u) by (nonlinear_arith);
        assert((sx * w - sy) * u == (sx * w) * u - sy * u) by (nonlinear_arith);
        rounding_scales(d as nat, ky as nat);
    }
    if n >= 26 {
        proof {
            far_smaller_is_lost(sx as nat, n as nat, sy as nat);
            magnitude_monotone(x as int, INFINITY_BITS as int);
        }
        return x;
    }
    let p: u64 = 1u64 << (n as u64);
    proof {
        lemma2_to64();
        lemma_pow2_strictly_increases(n as nat, 26);
        lemma_u64_shl_is_mul(1, n as u64);
        assert(0 <= sx * w < 0x100_0000 * 0x400_0000) by (nonlinear_arith)
            requires
                0 <= sx < 0x100_0000,
                0 < w < 0x400_0000,
        ;
    }
    let exact: u64 = if sum {
        sx * p + sy
    } else {
        sx * p - sy
    };
    let (q, k) = round_parts(exact);
    proof {
        let v = pow2(k as nat) as int;
        lemma_pow2_adds(k as nat, ky as nat);
        assert((q * v) * u == q * (v * u)) by (nonlinear_arith);
    }
    pack(q, k + ky)
}

/// The distance between two numbers as single-precision subtraction gives it, by its bits.
pub fn gap_bits(a: Single, b: Single) -> (r: u32)
    ensures
        magnitude_of(r as int) == gap(a, b),
{
    let x = a.low_bits();
    let y = b.low_bits();
    if x > INFINITY_BITS || y > INFINITY_BITS || (x == INFINITY_BITS && a.bits == b.bits) {
        return NAN_BITS;
    }
    if x == INFINITY_BITS || y == INFINITY_BITS {
        return INFINITY_BITS;
    }
    let apart = (a.bits >= 0x8000_0000) != (b.bits >= 0x8000_0000);
    if x < y {
        combine(y, x, apart)
    } else {
        combine(x, y, apart)
    }
}

/// Rounding is exact where twenty-four bits are enough, and otherwise goes to a multiple of the
/// spacing that is at most half a spacing away.
pub proof fn rounding_is_nearest(d: nat)
    ensures
        d < 0x100_0000 ==> to_single(d) == d,
        to_single(d) % spacing(d) == 0,
        -(spacing(d) as int) <= 2 * (to_single(d) - d) <= spacing(d),
{
    spacing_facts(d);
    let s = spacing(d) as int;
    let q = d as int / s;
    let r = d as int % s;
    lemma_fundamental_div_mod(d as int, s);
    assert((q + 1) * s == s * q + s) by (nonlinear_arith);
    assert(q * s == s * q) by (nonlinear_arith);
    lemma_mod_multiples_basic(q, s);
    lemma_mod_multiples_basic(q + 1, s);
    if d < 0x100_0000 {
        assert(d % 1 == 0 && d / 1 == d);
    }
}

/// The distance is the same both ways, and it is exact for numbers that are equal or whose
/// difference takes no more than twenty-four bits.
pub proof fn the_gap_is_a_distance(a: Single, b: Single)
    ensures
        gap(a, b) == gap(b, a),
        a.finite() && b.finite() ==> (a.value() == b.value() ==> gap(a, b) == 0),
        a.finite() && b.finite() && exact_gap(a, b) < 0x100_0000 ==> gap(a, b) == exact_gap(a, b),
        a.finite() && b.finite() ==> (gap(a, b) == 0 ==> a.value() == b.value()),
{
    if a.finite() && b.finite() {
        let d = exact_gap(a, b);
        rounding_is_nearest(d);
        spacing_facts(d);
        lemma2_to64();
        lemma_pow2_strictly_increases(24, 254);
        assert(magnitude_of(INFINITY_BITS as int) == 0x80_0000 * pow2(254));
        if d >= 0x100_0000 {
            let s = spacing(d) as int;
            let q = d as int / s;
            lemma_fundamental_div_mod(d as int, s);
            assert(q * s >= 1 && (q + 1) * s >= 1) by (nonlinear_arith)
                requires
                    q >= 1,
                    s >= 1,
            ;
        }
    }
}

} // verus!
