//! Easing curves on fixed-point heights.

use vstd::prelude::*;
use crate::scalar::{SCALE, abs_spec, abs_wide, clamp, clamp_spec, floor_div, lemma_product_bound,
    lemma_root_exists, lemma_square_order, product, product_spec, saturate, saturate_i128,
    sqrt_fixed, sqrt_spec};

verus! {

/// A curve that reshapes a height.
#[derive(Clone, Copy, Debug, PartialEq, Eq, Structural)]
pub enum Easings {
    /// The height as it is.
    Identity,
    /// `x² (3 − 2x)` on `x` clamped to the unit interval.
    SmoothStep,
    /// `1 − (1 − x)²`.
    SmoothStop,
    /// `x²`.
    SmoothStart,
    /// `1 − (1 − x)²`, under its other name.
    SmoothEnd,
    /// `|x|`.
    AbsoluteValue,
    /// `|x|` raised to a power. The exponent counts millionths, as every
    /// scalar does: `1_500_000` raises to the power one and a half.
    AbsoluteValuePow(u32),
}

/// The description of an easing stage, which is the stage itself.
#[derive(Clone, Copy, Debug, PartialEq, Eq, Structural)]
pub struct EasingData {
    pub easing: Easings,
}

/// The fixed-point power `base` to the `n`, one saturating product at a time.
pub open spec fn pow_spec(base: int, n: nat) -> int
    decreases n,
{
    if n == 0 {
        SCALE as int
    } else {
        product_spec(pow_spec(base, (n - 1) as nat), base)
    }
}

/// `acc` times `base` raised to the fraction `frac` of one, read to `bits`
/// binary places: each place takes the square root of the base once more,
/// and a place that is set multiplies that root in.
pub open spec fn root_pow_spec(acc: int, base: int, frac: int, bits: nat) -> int
    decreases bits,
{
    if bits == 0 || frac <= 0 {
        acc
    } else if 2 * frac >= SCALE {
        root_pow_spec(product_spec(acc, sqrt_spec(base)), sqrt_spec(base), 2 * frac - SCALE, (bits - 1) as nat)
    } else {
        root_pow_spec(acc, sqrt_spec(base), 2 * frac, (bits - 1) as nat)
    }
}

/// The binary places to which the fraction of an exponent is read.
pub const ROOT_PLACES: u32 = 20;

/// `base` raised to `exponent`, which counts millionths and is not
/// negative: the whole power first, then the fraction by square roots.
pub open spec fn real_pow_spec(base: int, exponent: int) -> int {
    root_pow_spec(
        pow_spec(base, (exponent / (SCALE as int)) as nat),
        base,
        exponent % (SCALE as int),
        ROOT_PLACES as nat,
    )
}

/// `1 − (1 − x)²` in fixed point.
pub open spec fn smooth_stop_spec(x: int) -> int {
    saturate(SCALE - ((SCALE - x) * (SCALE - x)) / (SCALE as int))
}

/// `x² (3 − 2x)` in fixed point, on `x` clamped to the unit interval.
pub open spec fn smooth_step_spec(x: int) -> int {
    let xc = clamp_spec(x, 0, SCALE as int);
    (xc * xc * (3 * SCALE - 2 * xc)) / (SCALE * SCALE)
}

impl Easings {
    /// What the curve makes of the height `x`.
    pub open spec fn apply_spec(self, x: int) -> int {
        match self {
            Easings::Identity => x,
            Easings::SmoothStep => smooth_step_spec(x),
            Easings::SmoothStop => smooth_stop_spec(x),
            Easings::SmoothStart => product_spec(x, x),
            Easings::SmoothEnd => smooth_stop_spec(x),
            Easings::AbsoluteValue => saturate(abs_spec(x)),
            Easings::AbsoluteValuePow(p) => real_pow_spec(saturate(abs_spec(x)), p as int),
        }
    }

    /// Reshapes the height `x`.
    pub fn apply(&self, x: i64) -> (r: i64)
        ensures
            r == self.apply_spec(x as int),
    {
        match self {
            Easings::SmoothStart => product(x, x),
            Easings::SmoothStop => smooth_stop(x),
            Easings::SmoothEnd => smooth_stop(x),
            Easings::SmoothStep => smooth_step(x),
            Easings::AbsoluteValue => saturate_i128(abs_wide(x)),
            Easings::AbsoluteValuePow(p) => real_power(saturate_i128(abs_wide(x)), *p),
            Easings::Identity => x,
        }
    }
}

/// `1 − (1 − x)²` in fixed point.
pub fn smooth_stop(x: i64) -> (r: i64)
    ensures
        r == smooth_stop_spec(x as int),
{
    let d: i128 = (SCALE as i128) - (x as i128);
    proof {
        lemma_product_bound(d as int, d as int, 0x8000_0000_0010_0000, 0x8000_0000_0010_0000);
    }
    let sq: i128 = floor_div(d * d, SCALE as i128);
    proof {
        crate::scalar::lemma_floor_div_bound((d * d) as int, 0x4000_0000_0010_0000_0000_0100_0000_0000);
    }
    saturate_i128((SCALE as i128) - sq)
}

/// `x² (3 − 2x)` in fixed point, on `x` clamped to the unit interval.
pub fn smooth_step(x: i64) -> (r: i64)
    ensures
        r == smooth_step_spec(x as int),
{
    let xc: i128 = clamp(x, 0, SCALE) as i128;
    proof {
        lemma_product_bound(xc as int, xc as int, 1_000_000, 1_000_000);
        lemma_product_bound(xc * xc, 3 * SCALE - 2 * xc, 1_000_000_000_000, 3_000_000);
        lemma_unit_cubic(xc as int);
    }
    let cubic: i128 = xc * xc * (3 * (SCALE as i128) - 2 * xc);
    let q: i128 = floor_div(cubic, (SCALE as i128) * (SCALE as i128));
    q as i64
}

/// `base` to the whole power `n` in fixed point.
pub fn power(base: i64, n: u32) -> (r: i64)
    ensures
        r == pow_spec(base as int, n as nat),
{
    let mut r: i64 = SCALE;
    let mut i: u32 = 0;
    while i < n
        invariant
            i <= n,
            r == pow_spec(base as int, i as nat),
        decreases n - i,
    {
        r = product(r, base);
        i = i + 1;
    }
    r
}

/// `acc` times `base` raised to the fraction `frac` of one, read to `bits`
/// binary places.
pub fn root_power(acc: i64, base: i64, frac: i64, bits: u32) -> (r: i64)
    requires
        frac < SCALE,
    ensures
        r == root_pow_spec(acc as int, base as int, frac as int, bits as nat),
    decreases bits,
{
    if bits == 0 || frac <= 0 {
        acc
    } else {
        let root: i64 = sqrt_fixed(base);
        if 2 * frac >= SCALE {
            root_power(product(acc, root), root, 2 * frac - SCALE, bits - 1)
        } else {
            root_power(acc, root, 2 * frac, bits - 1)
        }
    }
}

/// `base` raised to `exponent`, which counts millionths.
pub fn real_power(base: i64, exponent: u32) -> (r: i64)
    ensures
        r == real_pow_spec(base as int, exponent as int),
{
    let whole: u32 = exponent / 1_000_000;
    let frac: u32 = exponent % 1_000_000;
    root_power(power(base, whole), base, frac as i64, ROOT_PLACES)
}

/// On the unit interval the cubic of the smooth step lies between zero and
/// the cube of the scale.
pub proof fn lemma_unit_cubic(xc: int)
    requires
        0 <= xc <= SCALE,
    ensures
        0 <= xc * xc * (3 * SCALE - 2 * xc) <= SCALE * SCALE * SCALE,
        0 <= (xc * xc * (3 * SCALE - 2 * xc)) / (SCALE * SCALE) <= SCALE,
{
    let s: int = SCALE as int;
    let c: int = xc * xc * (3 * s - 2 * xc);
    assert(0 <= c) by (nonlinear_arith)
        requires
            c == xc * xc * (3 * s - 2 * xc),
            0 <= xc <= s,
    ;
    // s³ − c = (s − xc)² (s + 2 xc)
    assert(s * s * s - c == (s - xc) * (s - xc) * (s + 2 * xc)) by (nonlinear_arith)
        requires
            c == xc * xc * (3 * s - 2 * xc),
    ;
    assert(0 <= (s - xc) * (s - xc) * (s + 2 * xc)) by (nonlinear_arith)
        requires
            0 <= xc <= s,
    ;
    let ss: int = s * s;
    assert(ss == 1_000_000_000_000);
    vstd::arithmetic::div_mod::lemma_fundamental_div_mod(c, ss);
    vstd::arithmetic::div_mod::lemma_mod_bound(c, ss);
    let q: int = c / ss;
    assert(0 <= q <= s) by (nonlinear_arith)
        requires
            c == ss * q + c % ss,
            0 <= c % ss < ss,
            0 <= c <= ss * s,
            ss > 0,
    ;
}

/// The product of two values of the unit interval lies in the unit interval.
pub proof fn lemma_unit_product(a: int, b: int)
    requires
        0 <= a <= SCALE,
        0 <= b <= SCALE,
    ensures
        0 <= product_spec(a, b) <= SCALE,
        product_spec(a, b) == (a * b) / (SCALE as int),
{
    let s: int = SCALE as int;
    let p: int = a * b;
    assert(0 <= p <= s * s) by (nonlinear_arith)
        requires
            p == a * b,
            0 <= a <= s,
            0 <= b <= s,
    ;
    vstd::arithmetic::div_mod::lemma_fundamental_div_mod(p, s);
    vstd::arithmetic::div_mod::lemma_mod_bound(p, s);
    let q: int = p / s;
    assert(0 <= q <= s) by (nonlinear_arith)
        requires
            p == s * q + p % s,
            0 <= p % s < s,
            0 <= p <= s * s,
            s > 0,
    ;
}

/// A whole power of a value of the unit interval lies in the unit interval.
pub proof fn lemma_unit_power(base: int, n: nat)
    requires
        0 <= base <= SCALE,
    ensures
        0 <= pow_spec(base, n) <= SCALE,
    decreases n,
{
    if n > 0 {
        lemma_unit_power(base, (n - 1) as nat);
        lemma_unit_product(pow_spec(base, (n - 1) as nat), base);
    }
}

/// The square root of a value of the unit interval lies in the unit
/// interval.
pub proof fn lemma_unit_root(x: int)
    requires
        0 <= x <= SCALE,
    ensures
        0 <= sqrt_spec(x) <= SCALE,
{
    if x > 0 {
        let s: int = SCALE as int;
        assert(0 <= x * s <= s * s) by (nonlinear_arith)
            requires
                0 <= x <= s,
                s > 0,
        ;
        lemma_root_exists(x * s);
        lemma_square_order(sqrt_spec(x), s + 1);
        assert((s + 1) * (s + 1) > s * s) by (nonlinear_arith)
            requires
                s > 0,
        ;
    }
}

/// A power by square roots of a value of the unit interval, times a value
/// of the unit interval, lies in the unit interval.
pub proof fn lemma_unit_root_power(acc: int, base: int, frac: int, bits: nat)
    requires
        0 <= acc <= SCALE,
        0 <= base <= SCALE,
    ensures
        0 <= root_pow_spec(acc, base, frac, bits) <= SCALE,
    decreases bits,
{
    if bits > 0 && frac > 0 {
        lemma_unit_root(base);
        if 2 * frac >= SCALE {
            lemma_unit_product(acc, sqrt_spec(base));
            lemma_unit_root_power(
                product_spec(acc, sqrt_spec(base)),
                sqrt_spec(base),
                2 * frac - SCALE,
                (bits - 1) as nat,
            );
        } else {
            lemma_unit_root_power(acc, sqrt_spec(base), 2 * frac, (bits - 1) as nat);
        }
    }
}

/// A whole exponent raises to the whole power, one product after the
/// other.
pub proof fn whole_exponent_is_whole_power(base: int, n: nat)
    ensures
        real_pow_spec(base, n * SCALE) == pow_spec(base, n),
{
    let s: int = SCALE as int;
    assert(n * s == s * n) by (nonlinear_arith);
    vstd::arithmetic::div_mod::lemma_fundamental_div_mod_converse(n * s, s, n as int, 0);
}

/// The smooth step leaves both ends of the unit interval where they are.
pub proof fn smooth_step_endpoints()
    ensures
        Easings::SmoothStep.apply_spec(0) == 0,
        Easings::SmoothStep.apply_spec(SCALE as int) == SCALE,
{
    let s: int = SCALE as int;
    assert(s * s * (3 * s - 2 * s) == 1_000_000_000_000_000_000int && s * s
        == 1_000_000_000_000int) by (nonlinear_arith)
        requires
            s == 1_000_000,
    ;
    assert(0int * 0int * (3 * s - 2 * 0int) == 0) by (nonlinear_arith);
    assert(1_000_000_000_000_000_000int / 1_000_000_000_000int == 1_000_000int);
    assert(0int / 1_000_000_000_000int == 0);
}

/// The smooth step never falls as its argument grows: on the unit interval,
/// and, since it clamps, beyond it.
pub proof fn smooth_step_monotonic(a: int, b: int)
    requires
        a <= b,
    ensures
        Easings::SmoothStep.apply_spec(a) <= Easings::SmoothStep.apply_spec(b),
{
    let s: int = SCALE as int;
    let xa: int = clamp_spec(a, 0, s);
    let xb: int = clamp_spec(b, 0, s);
    let ga: int = xa * xa * (3 * s - 2 * xa);
    let gb: int = xb * xb * (3 * s - 2 * xb);
    assert(gb - ga == (xb - xa) * (3 * s * (xa + xb) - 2 * (xa * xa + xa * xb + xb * xb)))
        by (nonlinear_arith)
        requires
            ga == xa * xa * (3 * s - 2 * xa),
            gb == xb * xb * (3 * s - 2 * xb),
    ;
    assert(3 * s * (xa + xb) - 2 * (xa * xa + xa * xb + xb * xb) >= 0) by (nonlinear_arith)
        requires
            0 <= xa <= s,
            0 <= xb <= s,
    ;
    assert(ga <= gb) by (nonlinear_arith)
        requires
            gb - ga == (xb - xa) * (3 * s * (xa + xb) - 2 * (xa * xa + xa * xb + xb * xb)),
            3 * s * (xa + xb) - 2 * (xa * xa + xa * xb + xb * xb) >= 0,
            xa <= xb,
    ;
    vstd::arithmetic::div_mod::lemma_div_is_ordered(ga, gb, s * s);
}

/// The smooth start of a whole number of units is its square.
pub proof fn smooth_start_squares(k: int)
    ensures
        Easings::SmoothStart.apply_spec(k * SCALE) == saturate(k * k * SCALE),
{
    let s: int = SCALE as int;
    assert((k * s) * (k * s) == (k * k * s) * s) by (nonlinear_arith);
    vstd::arithmetic::div_mod::lemma_div_multiples_vanish(k * k * s, s);
}

/// The absolute value is never negative and forgets the sign.
pub proof fn absolute_value_mirrors(x: int)
    ensures
        Easings::AbsoluteValue.apply_spec(x) >= 0,
        Easings::AbsoluteValue.apply_spec(-x) == Easings::AbsoluteValue.apply_spec(x),
        0 <= x <= i64::MAX ==> Easings::AbsoluteValue.apply_spec(-x) == x,
{
}

/// Every curve maps the unit interval into itself.
pub proof fn easing_keeps_unit_interval(e: Easings, x: int)
    requires
        0 <= x <= SCALE,
    ensures
        0 <= e.apply_spec(x) <= SCALE,
{
    let s: int = SCALE as int;
    match e {
        Easings::Identity => {},
        Easings::SmoothStep => {
            lemma_unit_cubic(x);
        },
        Easings::SmoothStop => {
            lemma_unit_product(s - x, s - x);
        },
        Easings::SmoothEnd => {
            lemma_unit_product(s - x, s - x);
        },
        Easings::SmoothStart => {
            lemma_unit_product(x, x);
        },
        Easings::AbsoluteValue => {},
        Easings::AbsoluteValuePow(p) => {
            let e: int = p as int;
            lemma_unit_power(x, (e / (SCALE as int)) as nat);
            lemma_unit_root_power(
                pow_spec(x, (e / (SCALE as int)) as nat),
                x,
                e % (SCALE as int),
                ROOT_PLACES as nat,
            );
        },
    }
}

} // verus!
