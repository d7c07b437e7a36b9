//! Fixed-point arithmetic: truncating division, rescaled products, an
//! integer square root, and the lemmas about them that the movement and
//! camera contracts rest on.

use vstd::prelude::*;
use vstd::arithmetic::div_mod::*;

verus! {

/// Fixed-point scale: quantities are integers counted in thousandths
/// (milliunits, milliunits per second, milliseconds, milliradians).
pub const SCALE: i64 = 1000;

/// Division rounded toward zero, the rounding rule of every fixed-point
/// operation in this crate. The spec-level `/` is Euclidean, so truncation
/// is spelled out over magnitudes.
pub open spec fn div_trunc(a: int, d: int) -> int {
    if a >= 0 {
        a / d
    } else {
        -((-a) / d)
    }
}

/// Fixed-point product: `a * b` rescaled back down, truncated toward zero.
pub open spec fn fix_mul(a: int, b: int) -> int {
    div_trunc(a * b, SCALE as int)
}

/// Clamp `x` into the closed interval `[lo, hi]`.
pub open spec fn clamp_s(x: int, lo: int, hi: int) -> int {
    if x < lo {
        lo
    } else if x > hi {
        hi
    } else {
        x
    }
}

/// Magnitude of `x`.
pub open spec fn abs_s(x: int) -> int {
    if x >= 0 {
        x
    } else {
        -x
    }
}

/// `r` is the floor of the real square root of `n`.
pub open spec fn is_sqrt_floor(n: int, r: int) -> bool {
    0 <= r && r * r <= n && n < (r + 1) * (r + 1)
}

/// The floor of the real square root of `n` (for `n >= 0` it exists and is
/// unique; see `lemma_sqrt_floor_unique`).
pub open spec fn sqrt_floor(n: int) -> int {
    choose|r: int| is_sqrt_floor(n, r)
}

/// Any witness of `is_sqrt_floor` is the value `sqrt_floor` denotes.
pub proof fn lemma_sqrt_floor_unique(n: int, r: int)
    requires
        is_sqrt_floor(n, r),
    ensures
        sqrt_floor(n) == r,
{
    assert(is_sqrt_floor(n, sqrt_floor(n))) by {
        assert(exists|q: int| is_sqrt_floor(n, q));
    }
    let s = sqrt_floor(n);
    if s < r {
        assert((s + 1) * (s + 1) <= r * r) by (nonlinear_arith)
            requires
                0 <= s,
                s < r,
        ;
        assert(false);
    }
    if r < s {
        assert((r + 1) * (r + 1) <= s * s) by (nonlinear_arith)
            requires
                0 <= r,
                r < s,
        ;
        assert(false);
    }
}

/// Every non-negative integer has a square-root floor, so `sqrt_floor`
/// denotes it.
pub proof fn lemma_sqrt_floor_exists(n: int)
    requires
        0 <= n,
    ensures
        is_sqrt_floor(n, sqrt_floor(n)),
    decreases n,
{
    if n == 0 {
        assert(is_sqrt_floor(0, 0));
    } else {
        lemma_sqrt_floor_exists(n - 1);
        let r0 = sqrt_floor(n - 1);
        if (r0 + 1) * (r0 + 1) <= n {
            // then n == (r0 + 1) * (r0 + 1), and r0 + 1 is the witness
            assert(n < (r0 + 2) * (r0 + 2)) by (nonlinear_arith)
                requires
                    0 <= r0,
                    n <= (r0 + 1) * (r0 + 1),
            ;
            assert(is_sqrt_floor(n, r0 + 1));
        } else {
            assert(is_sqrt_floor(n, r0));
        }
    }
    assert(exists|q: int| is_sqrt_floor(n, q));
}

/// A square is the square of the magnitude, and never negative.
pub proof fn lemma_abs_sq(x: int)
    ensures
        x * x == abs_s(x) * abs_s(x),
        0 <= x * x,
{
    if x < 0 {
        assert(x * x == (-x) * (-x)) by (nonlinear_arith);
    }
    assert(0 <= abs_s(x) * abs_s(x)) by (nonlinear_arith)
        requires
            0 <= abs_s(x),
    ;
}

/// Squaring preserves order on non-negative values.
pub proof fn lemma_sq_of_le(p: int, q: int)
    by (nonlinear_arith)
    requires
        0 <= p <= q,
    ensures
        p * p <= q * q,
{
}

/// A product's square is the product of the squares.
pub proof fn lemma_sq_of_product(a: int, b: int)
    by (nonlinear_arith)
    ensures
        (a * b) * (a * b) == (a * a) * (b * b),
{
}

/// For a non-negative numerator, truncating and Euclidean division agree,
/// and the quotient undershoots the numerator.
pub proof fn lemma_div_trunc_nonneg(a: int, d: int)
    requires
        0 <= a,
        0 < d,
    ensures
        div_trunc(a, d) == a / d,
        0 <= div_trunc(a, d),
        d * div_trunc(a, d) <= a,
        div_trunc(a, d) <= a,
{
    lemma_fundamental_div_mod(a, d);
    lemma_mod_bound(a, d);
    lemma_div_pos_is_pos(a, d);
    lemma_div_nonincreasing(a, d);
}

/// Truncating division shrinks magnitudes: `|a / d| * d <= |a|`, so in
/// particular `|a / d| <= |a|`.
pub proof fn lemma_div_trunc_mag(a: int, d: int)
    requires
        0 < d,
    ensures
        0 <= abs_s(div_trunc(a, d)) <= abs_s(a),
        abs_s(div_trunc(a, d)) * d <= abs_s(a),
{
    let m = abs_s(a);
    lemma_div_trunc_nonneg(m, d);
    assert(abs_s(div_trunc(a, d)) == m / d);
    assert((m / d) * d == d * (m / d)) by (nonlinear_arith);
}

/// Truncating division is monotone in the numerator.
pub proof fn lemma_div_trunc_mono(a: int, b: int, d: int)
    requires
        a <= b,
        0 < d,
    ensures
        div_trunc(a, d) <= div_trunc(b, d),
{
    if a >= 0 {
        lemma_div_is_ordered(a, b, d);
    } else if b >= 0 {
        lemma_div_trunc_nonneg(-a, d);
        lemma_div_trunc_nonneg(b, d);
    } else {
        lemma_div_is_ordered(-b, -a, d);
    }
}

/// Shifting the numerator up by `k` whole multiples of the divisor raises a
/// truncating quotient by at most `k`.
pub proof fn lemma_div_trunc_shift(a: int, k: int, d: int)
    requires
        0 <= k,
        0 < d,
    ensures
        div_trunc(a + k * d, d) <= div_trunc(a, d) + k,
{
    if a >= 0 {
        lemma_hoist_over_denominator(a, k, d as nat);
        assert(div_trunc(a + k * d, d) == a / d + k);
    } else if a + k * d >= 0 {
        // Euclidean floor is below the truncating value on the negative side.
        lemma_hoist_over_denominator(a, k, d as nat);
        assert((a + k * d) / d == a / d + k);
        lemma_fundamental_div_mod(a, d);
        lemma_fundamental_div_mod(-a, d);
        lemma_mod_bound(a, d);
        lemma_mod_bound(-a, d);
        assert(a / d <= -((-a) / d)) by (nonlinear_arith)
            requires
                0 < d,
                a == d * (a / d) + a % d,
                -a == d * ((-a) / d) + (-a) % d,
                0 <= a % d < d,
                0 <= (-a) % d < d,
        ;
    } else {
        lemma_hoist_over_denominator(-a - k * d, k, d as nat);
        assert((-a - k * d) / d + k == (-a) / d);
        assert(div_trunc(a + k * d, d) == -((-a - k * d) / d));
    }
}

/// Scaling by a ratio `num / den` with `0 <= num <= den` cannot grow a
/// magnitude: `|x * num / den| <= |x|`.
pub proof fn lemma_scale_ratio_shrinks(x: int, num: int, den: int)
    requires
        0 <= num <= den,
        0 < den,
    ensures
        abs_s(div_trunc(x * num, den)) <= abs_s(x),
{
    let y = abs_s(x);
    if x < 0 {
        assert(y * num == -(x * num)) by (nonlinear_arith)
            requires
                y == -x,
        ;
    }
    assert(0 <= y * num) by (nonlinear_arith)
        requires
            0 <= y,
            0 <= num,
    ;
    lemma_div_trunc_nonneg(y * num, den);
    assert(abs_s(div_trunc(x * num, den)) == (y * num) / den);
    assert(y * num <= y * den) by (nonlinear_arith)
        requires
            0 <= y,
            num <= den,
    ;
    lemma_div_is_ordered(y * num, y * den, den);
    lemma_div_multiples_vanish(y, den);
    assert(y * den == den * y) by (nonlinear_arith);
}

/// A product of bounded factors is bounded by the product of the bounds.
pub proof fn lemma_mul_bounds(a: int, b: int, ma: int, mb: int)
    by (nonlinear_arith)
    requires
        -ma <= a <= ma,
        -mb <= b <= mb,
        0 <= ma,
        0 <= mb,
    ensures
        -(ma * mb) <= a * b <= ma * mb,
{
}

/// Truncating division of a wide value by a positive divisor. The callers'
/// range bounds keep the quotient inside `i64`.
pub fn div_trunc_i128(a: i128, d: i64) -> (r: i64)
    requires
        0 < d,
        -0x4000_0000_0000_0000_0000_0000_0000_0000 <= a as int
            <= 0x4000_0000_0000_0000_0000_0000_0000_0000,
        -0x7fff_ffff_ffff_ffff <= div_trunc(a as int, d as int) <= 0x7fff_ffff_ffff_ffff,
    ensures
        r as int == div_trunc(a as int, d as int),
{
    let dw: u128 = d as u128;
    if a >= 0 {
        let q: u128 = (a as u128) / dw;
        proof {
            lemma_div_trunc_nonneg(a as int, d as int);
        }
        q as i64
    } else {
        let q: u128 = ((-a) as u128) / dw;
        proof {
            lemma_div_trunc_nonneg(-(a as int), d as int);
        }
        -(q as i64)
    }
}

/// `(a * b) / d` with the product taken at full width, truncated toward
/// zero. The callers' range bounds keep the quotient inside `i64`.
pub fn mul_div(a: i64, b: i64, d: i64) -> (r: i64)
    requires
        0 < d,
        -0x7fff_ffff_ffff_ffff <= div_trunc(a as int * b as int, d as int)
            <= 0x7fff_ffff_ffff_ffff,
    ensures
        r as int == div_trunc(a as int * b as int, d as int),
{
    let wa: i128 = a as i128;
    let wb: i128 = b as i128;
    proof {
        assert(-0x4000_0000_0000_0000_0000_0000_0000_0000 <= (wa as int) * (wb as int)
            <= 0x4000_0000_0000_0000_0000_0000_0000_0000) by (nonlinear_arith)
            requires
                -0x8000_0000_0000_0000 <= wa as int <= 0x7fff_ffff_ffff_ffff,
                -0x8000_0000_0000_0000 <= wb as int <= 0x7fff_ffff_ffff_ffff,
        ;
    }
    let p: i128 = wa * wb;
    let dw: u128 = d as u128;
    if p >= 0 {
        let q: u128 = (p as u128) / dw;
        proof {
            lemma_div_trunc_nonneg(p as int, d as int);
        }
        q as i64
    } else {
        let q: u128 = ((-p) as u128) / dw;
        proof {
            lemma_div_trunc_nonneg(-(p as int), d as int);
        }
        -(q as i64)
    }
}

/// Floor of the square root, by bisection on the candidate root.
pub fn isqrt(n: u128) -> (r: u128)
    requires
        n < 0x10_0000_0000_0000_0000_0000_0000,  // 2^100
    ensures
        is_sqrt_floor(n as int, r as int),
{
    let mut lo: u128 = 0;
    let mut hi: u128 = 0x8_0000_0000_0000;  // 2^51, whose square exceeds every allowed n
    proof {
        assert((0x8_0000_0000_0000 as int) * (0x8_0000_0000_0000 as int)
            > 0x10_0000_0000_0000_0000_0000_0000) by (nonlinear_arith);
    }
    while lo + 1 < hi
        invariant
            lo < hi,
            hi <= 0x8_0000_0000_0000,
            (lo as int) * (lo as int) <= n as int,
            (n as int) < (hi as int) * (hi as int),
        decreases hi - lo,
    {
        let mid = lo + (hi - lo) / 2;
        proof {
            assert((mid as int) * (mid as int) < 0x1_0000_0000_0000_0000_0000_0000_0000)
                by (nonlinear_arith)
                requires
                    mid < 0x8_0000_0000_0000,
            ;
        }
        let sq = mid * mid;
        if sq <= n {
            lo = mid;
        } else {
            hi = mid;
        }
    }
    lo
}

/// The smaller of two values.
pub fn min_i64(a: i64, b: i64) -> (r: i64)
    ensures
        r == if a < b { a as int } else { b as int },
{
    if a < b {
        a
    } else {
        b
    }
}

/// Clamp `x` into `[lo, hi]`.
pub fn clamp_i64(x: i64, lo: i64, hi: i64) -> (r: i64)
    requires
        lo <= hi,
    ensures
        r as int == clamp_s(x as int, lo as int, hi as int),
{
    if x < lo {
        lo
    } else if x > hi {
        hi
    } else {
        x
    }
}

} // verus!
