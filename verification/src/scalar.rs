//! Fixed-point scalars.
//!
//! Every coordinate, height and colour channel of the library is an `i64`
//! that counts steps of one millionth of a unit. Results that leave the
//! range of `i64` saturate at its ends; quotients round towards minus
//! infinity.

use vstd::prelude::*;
use vstd::arithmetic::div_mod::lemma_fundamental_div_mod_converse;

verus! {

/// The number of steps that make one unit.
pub const SCALE: i64 = 1_000_000;

/// `v` brought into the range of `i64`.
pub open spec fn saturate(v: int) -> int {
    if v < i64::MIN {
        i64::MIN as int
    } else if v > i64::MAX {
        i64::MAX as int
    } else {
        v
    }
}

/// `v` brought into `[lo, hi]`; `lo` wins where the two cross.
pub open spec fn clamp_spec(v: int, lo: int, hi: int) -> int {
    if v < lo {
        lo
    } else if v > hi {
        hi
    } else {
        v
    }
}

/// The magnitude of `v`.
pub open spec fn abs_spec(v: int) -> int {
    if v < 0 {
        -v
    } else {
        v
    }
}

/// The fixed-point product of `a` and `b`.
pub open spec fn product_spec(a: int, b: int) -> int {
    saturate((a * b) / (SCALE as int))
}

/// The fixed-point quotient of `num` by `den`; zero where `den` is not
/// positive.
pub open spec fn ratio_spec(num: int, den: int) -> int {
    if den <= 0 {
        0
    } else {
        saturate((num * SCALE) / den)
    }
}

/// The point that lies the fraction `t` of the way from `low` to `high`.
pub open spec fn lerp_spec(low: int, high: int, t: int) -> int {
    saturate(low + (t * (high - low)) / (SCALE as int))
}

/// Whether `r` is the integer square root of `n`.
pub open spec fn is_sqrt(n: int, r: int) -> bool {
    0 <= r && r * r <= n && n < (r + 1) * (r + 1)
}

/// Brings a wide value into the range of `i64`.
pub fn saturate_i128(v: i128) -> (r: i64)
    ensures
        r == saturate(v as int),
{
    if v < i64::MIN as i128 {
        i64::MIN
    } else if v > i64::MAX as i128 {
        i64::MAX
    } else {
        v as i64
    }
}

/// Brings `v` into `[lo, hi]`.
pub fn clamp(v: i64, lo: i64, hi: i64) -> (r: i64)
    ensures
        r == clamp_spec(v as int, lo as int, hi as int),
{
    if v < lo {
        lo
    } else if v > hi {
        hi
    } else {
        v
    }
}

/// The magnitude of `v` as a wide value, so that the least `i64` has one.
pub fn abs_wide(v: i64) -> (r: i128)
    ensures
        r == abs_spec(v as int),
{
    if v < 0 {
        -(v as i128)
    } else {
        v as i128
    }
}

/// The quotient of `p` by a positive `d`, rounded towards minus infinity.
pub fn floor_div(p: i128, d: i128) -> (q: i128)
    requires
        d > 0,
    ensures
        q == (p as int) / (d as int),
{
    if p >= 0 {
        let q: u128 = (p as u128) / (d as u128);
        q as i128
    } else {
        let m: u128 = (-(p + 1)) as u128;
        let k: u128 = m / (d as u128);
        let r: Ghost<int> = Ghost((m as int) % (d as int));
        proof {
            let di: int = d as int;
            let ki: int = k as int;
            assert(m as int == di * ki + r@) by {
                vstd::arithmetic::div_mod::lemma_fundamental_div_mod(m as int, di);
            }
            assert(0 <= r@ < di) by {
                vstd::arithmetic::div_mod::lemma_mod_pos_bound(m as int, di);
            }
            assert(p as int == (-ki - 1) * di + (di - r@ - 1)) by (nonlinear_arith)
                requires
                    p as int == -(m as int) - 1,
                    m as int == di * ki + r@,
            ;
            lemma_fundamental_div_mod_converse(p as int, di, -ki - 1, di - r@ - 1);
        }
        -(k as i128) - 1
    }
}

/// The fixed-point product of two scalars.
pub fn product(a: i64, b: i64) -> (r: i64)
    ensures
        r == product_spec(a as int, b as int),
{
    proof {
        lemma_product_bound(a as int, b as int, 0x8000_0000_0000_0000, 0x8000_0000_0000_0000);
    }
    let p: i128 = (a as i128) * (b as i128);
    saturate_i128(floor_div(p, SCALE as i128))
}

/// The fixed-point quotient of two scalars; zero where `den` is not positive.
pub fn ratio(num: i64, den: i64) -> (r: i64)
    ensures
        r == ratio_spec(num as int, den as int),
{
    ratio_wide(num as i128, den as i128)
}

/// The fixed-point quotient of two differences of scalars; zero where `den`
/// is not positive.
pub fn ratio_wide(num: i128, den: i128) -> (r: i64)
    requires
        -0x1_0000_0000_0000_0000 <= num <= 0x1_0000_0000_0000_0000,
    ensures
        r == ratio_spec(num as int, den as int),
{
    if den <= 0 {
        0
    } else {
        proof {
            lemma_product_bound(num as int, SCALE as int, 0x1_0000_0000_0000_0000, 1_000_000);
        }
        let p: i128 = num * (SCALE as i128);
        saturate_i128(floor_div(p, den))
    }
}

/// The point that lies the fraction `t` of the way from `low` to `high`.
pub fn lerp(low: i64, high: i64, t: i64) -> (r: i64)
    ensures
        r == lerp_spec(low as int, high as int, t as int),
{
    let span: i128 = (high as i128) - (low as i128);
    proof {
        lemma_product_bound(t as int, span as int, 0x8000_0000_0000_0000, 0xffff_ffff_ffff_ffff);
    }
    let p: i128 = (t as i128) * span;
    let step: i128 = floor_div(p, SCALE as i128);
    proof {
        lemma_floor_div_bound(p as int, 0x8000_0000_0000_0000_0000_0000_0000_0000);
    }
    saturate_i128((low as i128) + step)
}

/// The integer square root of `n`: the one `r` that `is_sqrt` accepts.
pub open spec fn isqrt_spec(n: int) -> int {
    choose|r: int| is_sqrt(n, r)
}

/// The integer square root of `n`.
pub fn isqrt(n: u128) -> (r: u64)
    ensures
        is_sqrt(n as int, r as int),
        r == isqrt_spec(n as int),
{
    let mut lo: u128 = 0;
    let mut hi: u128 = 0x1_0000_0000_0000_0000;
    while hi - lo > 1
        invariant
            lo < hi <= 0x1_0000_0000_0000_0000,
            lo * lo <= n < hi * hi,
        decreases hi - lo,
    {
        let mid: u128 = lo + (hi - lo) / 2;
        proof {
            lemma_product_bound(mid as int, mid as int, 0xffff_ffff_ffff_ffff, 0xffff_ffff_ffff_ffff);
        }
        if mid * mid <= n {
            lo = mid;
        } else {
            hi = mid;
        }
    }
    proof {
        lemma_sqrt_unique(n as int, lo as int, isqrt_spec(n as int));
    }
    lo as u64
}

/// A number has at most one integer square root.
pub proof fn lemma_sqrt_unique(n: int, r1: int, r2: int)
    requires
        is_sqrt(n, r1),
    ensures
        is_sqrt(n, isqrt_spec(n)),
        is_sqrt(n, r2) ==> r1 == r2,
{
    if is_sqrt(n, r2) {
        assert(r1 == r2) by (nonlinear_arith)
            requires
                0 <= r1,
                r1 * r1 <= n,
                n < (r1 + 1) * (r1 + 1),
                0 <= r2,
                r2 * r2 <= n,
                n < (r2 + 1) * (r2 + 1),
        ;
    }
}

/// The fixed-point square root of `x`; zero where `x` is not positive.
pub open spec fn sqrt_spec(x: int) -> int {
    if x <= 0 {
        0
    } else {
        isqrt_spec(x * SCALE)
    }
}

/// The fixed-point square root of a scalar; zero where it is not positive.
pub fn sqrt_fixed(x: i64) -> (r: i64)
    ensures
        r == sqrt_spec(x as int),
        0 <= r,
{
    if x <= 0 {
        0
    } else {
        proof {
            lemma_product_bound(x as int, SCALE as int, 0x8000_0000_0000_0000, 1_000_000);
        }
        let n: u128 = (x as u128) * (SCALE as u128);
        let root: u64 = isqrt(n);
        proof {
            lemma_square_order(root as int, 0x400_0000_0000);
        }
        root as i64
    }
}

/// Squares of values that are not negative are ordered as the values are.
pub proof fn lemma_square_order(a: int, b: int)
    requires
        0 <= a,
        0 <= b,
    ensures
        a < b ==> a * a < b * b,
        a >= b ==> a * a >= b * b,
        0 <= a * a,
{
    assert((a < b ==> a * a < b * b) && (a >= b ==> a * a >= b * b) && 0 <= a * a)
        by (nonlinear_arith)
        requires
            0 <= a,
            0 <= b,
    ;
}

/// Every number that is not negative has an integer square root.
pub proof fn lemma_root_exists(n: int)
    requires
        0 <= n,
    ensures
        is_sqrt(n, isqrt_spec(n)),
    decreases n,
{
    if n == 0 {
        assert(is_sqrt(0, 0));
    } else {
        lemma_root_exists(n - 1);
        let r = isqrt_spec(n - 1);
        if (r + 1) * (r + 1) <= n {
            assert(n < (r + 2) * (r + 2)) by (nonlinear_arith)
                requires
                    n - 1 < (r + 1) * (r + 1),
                    0 <= r,
            ;
            assert(is_sqrt(n, r + 1));
        } else {
            assert(is_sqrt(n, r));
        }
    }
}

/// A product is bounded by the product of the bounds of its factors.
pub proof fn lemma_product_bound(a: int, b: int, ma: int, mb: int)
    requires
        -ma <= a <= ma,
        -mb <= b <= mb,
    ensures
        -(ma * mb) <= a * b <= ma * mb,
{
    assert(-(ma * mb) <= a * b <= ma * mb) by (nonlinear_arith)
        requires
            -ma <= a <= ma,
            -mb <= b <= mb,
    ;
}

/// Dividing by the scale keeps a value within the bound it had.
pub proof fn lemma_floor_div_bound(p: int, m: int)
    requires
        -m <= p <= m,
        m >= 0,
    ensures
        -m <= p / (SCALE as int) <= m,
{
    let s: int = SCALE as int;
    vstd::arithmetic::div_mod::lemma_fundamental_div_mod(p, s);
    vstd::arithmetic::div_mod::lemma_mod_bound(p, s);
    let q: int = p / s;
    assert(-m <= q <= m) by (nonlinear_arith)
        requires
            p == s * q + p % s,
            0 <= p % s < s,
            s == 1_000_000,
            -m <= p <= m,
            m >= 0,
    ;
}

/// A blend of two scalars lies between them when the fraction lies in the
/// unit interval, and does not saturate.
pub proof fn lemma_lerp_between(low: int, high: int, t: int)
    requires
        0 <= t <= SCALE,
        i64::MIN <= low <= i64::MAX,
        i64::MIN <= high <= i64::MAX,
    ensures
        lerp_spec(low, high, t) == low + (t * (high - low)) / (SCALE as int),
        low <= high ==> low <= lerp_spec(low, high, t) <= high,
        high <= low ==> high <= lerp_spec(low, high, t) <= low,
{
    let s: int = SCALE as int;
    let p: int = t * (high - low);
    vstd::arithmetic::div_mod::lemma_fundamental_div_mod(p, s);
    vstd::arithmetic::div_mod::lemma_mod_bound(p, s);
    let q: int = p / s;
    if low <= high {
        assert(0 <= q <= high - low) by (nonlinear_arith)
            requires
                p == t * (high - low),
                p == s * q + p % s,
                0 <= p % s < s,
                0 <= t <= s,
                low <= high,
                s > 0,
        ;
    } else {
        assert(high - low <= q <= 0) by (nonlinear_arith)
            requires
                p == t * (high - low),
                p == s * q + p % s,
                0 <= p % s < s,
                0 <= t <= s,
                high < low,
                s > 0,
        ;
    }
}

/// The share `i / n` of a whole that is not negative lies between nothing
/// and the whole.
pub proof fn lemma_share_bound(whole: int, i: int, n: int)
    requires
        0 <= whole,
        0 <= i <= n,
        0 < n,
    ensures
        0 <= (whole * i) / n <= whole,
{
    let p: int = whole * i;
    assert(0 <= p <= whole * n) by (nonlinear_arith)
        requires
            p == whole * i,
            0 <= whole,
            0 <= i <= n,
    ;
    vstd::arithmetic::div_mod::lemma_fundamental_div_mod(p, n);
    vstd::arithmetic::div_mod::lemma_mod_bound(p, n);
    let q: int = p / n;
    assert(0 <= q <= whole) by (nonlinear_arith)
        requires
            p == n * q + p % n,
            0 <= p % n < n,
            0 <= p <= whole * n,
            n > 0,
    ;
}

} // verus!
