//! Fixed-point scalars.
//!
//! Every length, speed, angle and duration of the simulation is an `i64`
//! counted in millionths: `ONE` stands for one arena unit, one second or one
//! radian. Sums and products saturate at the ends of `i64` instead of wrapping,
//! so every operation is total.

use vstd::prelude::*;

verus! {

/// One whole unit in the fixed-point representation.
pub const ONE: i64 = 1_000_000;

/// Half a turn, in fixed-point radians.
pub const PI: i64 = 3_141_592;

/// A quarter turn, in fixed-point radians.
pub const HALF_PI: i64 = 1_570_796;

/// A full turn, in fixed-point radians.
pub const TAU: i64 = 6_283_184;

/// The `i64` nearest to `v`.
pub open spec fn saturate(v: int) -> i64 {
    if v < i64::MIN {
        i64::MIN
    } else if v > i64::MAX {
        i64::MAX
    } else {
        v as i64
    }
}

/// `p / d` rounded toward zero, for a positive `d`.
pub open spec fn trunc_div(p: int, d: int) -> int {
    if p >= 0 {
        p / d
    } else {
        -((-p) / d)
    }
}

pub open spec fn spec_add_sat(a: i64, b: i64) -> i64 {
    saturate(a + b)
}

pub open spec fn spec_sub_sat(a: i64, b: i64) -> i64 {
    saturate(a - b)
}

/// The fixed-point product: `a * b / ONE`, rounded toward zero, saturated.
pub open spec fn spec_mul_fixed(a: i64, b: i64) -> i64 {
    saturate(trunc_div(a * b, ONE as int))
}

/// The mean of two coordinates, rounded toward zero.
pub open spec fn spec_midpoint(a: i64, b: i64) -> i64 {
    trunc_div(a + b, 2) as i64
}

pub fn add_sat(a: i64, b: i64) -> (r: i64)
    ensures
        r == spec_add_sat(a, b),
{
    let s: i128 = a as i128 + b as i128;
    if s < i64::MIN as i128 {
        i64::MIN
    } else if s > i64::MAX as i128 {
        i64::MAX
    } else {
        s as i64
    }
}

pub fn sub_sat(a: i64, b: i64) -> (r: i64)
    ensures
        r == spec_sub_sat(a, b),
{
    let s: i128 = a as i128 - b as i128;
    if s < i64::MIN as i128 {
        i64::MIN
    } else if s > i64::MAX as i128 {
        i64::MAX
    } else {
        s as i64
    }
}

proof fn lemma_product_bound(a: int, b: int)
    by (nonlinear_arith)
    requires
        -0x8000_0000_0000_0000 <= a <= 0x7fff_ffff_ffff_ffff,
        -0x8000_0000_0000_0000 <= b <= 0x7fff_ffff_ffff_ffff,
    ensures
        -0x4000_0000_0000_0000_0000_0000_0000_0000 <= a * b
            <= 0x4000_0000_0000_0000_0000_0000_0000_0000,
{
}

pub fn mul_fixed(a: i64, b: i64) -> (r: i64)
    ensures
        r == spec_mul_fixed(a, b),
{
    proof {
        lemma_product_bound(a as int, b as int);
    }
    let p: i128 = (a as i128) * (b as i128);
    let q: i128 = p / (ONE as i128);
    if q < i64::MIN as i128 {
        i64::MIN
    } else if q > i64::MAX as i128 {
        i64::MAX
    } else {
        q as i64
    }
}

pub fn midpoint(a: i64, b: i64) -> (r: i64)
    ensures
        r == spec_midpoint(a, b),
{
    let s: i128 = a as i128 + b as i128;
    (s / 2) as i64
}

/// `r` is the integer square root of `n`, rounded down.
pub open spec fn is_floor_sqrt(n: int, r: int) -> bool {
    0 <= r && r * r <= n < (r + 1) * (r + 1)
}

/// The integer square root of `n`, rounded down.
pub open spec fn spec_isqrt(n: int) -> int {
    choose|r: int| is_floor_sqrt(n, r)
}

/// The integer square root of `n`, rounded up.
pub open spec fn spec_ceil_sqrt(n: int) -> int {
    let r = spec_isqrt(n);
    if r * r == n {
        r
    } else {
        r + 1
    }
}

/// A number has at most one rounded-down square root.
pub proof fn lemma_floor_sqrt_unique(n: int, a: int, b: int)
    by (nonlinear_arith)
    requires
        is_floor_sqrt(n, a),
        is_floor_sqrt(n, b),
    ensures
        a == b,
{
    if a < b {
        assert((a + 1) * (a + 1) <= b * b);
    } else if b < a {
        assert((b + 1) * (b + 1) <= a * a);
    }
}

/// Every number from zero on has a rounded-down square root.
pub proof fn lemma_isqrt_is_root(n: int)
    requires
        0 <= n,
    ensures
        is_floor_sqrt(n, spec_isqrt(n)),
    decreases n,
{
    if n == 0 {
        assert(is_floor_sqrt(0, 0));
    } else {
        lemma_isqrt_is_root(n - 1);
        let r = spec_isqrt(n - 1);
        if (r + 1) * (r + 1) <= n {
            assert(n < (r + 2) * (r + 2)) by (nonlinear_arith)
                requires
                    0 <= r,
                    n - 1 < (r + 1) * (r + 1),
            ;
            assert(is_floor_sqrt(n, r + 1));
        } else {
            assert(is_floor_sqrt(n, r));
        }
    }
}

pub proof fn lemma_square_fits(m: int)
    by (nonlinear_arith)
    requires
        0 <= m < 0x1_0000_0000_0000_0000,
    ensures
        0 <= m * m <= 0xffff_ffff_ffff_ffff_ffff_ffff_ffff_ffff,
{
    assert(m * m <= 0xffff_ffff_ffff_ffff * 0xffff_ffff_ffff_ffff);
}

pub fn isqrt(n: u128) -> (r: u64)
    ensures
        is_floor_sqrt(n as int, r as int),
        r == spec_isqrt(n as int),
{
    let mut lo: u128 = 0;
    let mut hi: u128 = 0x1_0000_0000_0000_0000;
    assert(n < hi * hi) by (nonlinear_arith)
        requires
            hi == 0x1_0000_0000_0000_0000,
            n <= 0xffff_ffff_ffff_ffff_ffff_ffff_ffff_ffff,
    ;
    while hi - lo > 1
        invariant
            lo < hi <= 0x1_0000_0000_0000_0000,
            lo * lo <= n,
            n < hi * hi,
        decreases hi - lo,
    {
        let mid: u128 = lo + (hi - lo) / 2;
        proof {
            lemma_square_fits(mid as int);
        }
        if mid * mid <= n {
            lo = mid;
        } else {
            hi = mid;
        }
    }
    proof {
        assert(hi == lo + 1);
        assert(is_floor_sqrt(n as int, lo as int));
        lemma_floor_sqrt_unique(n as int, lo as int, spec_isqrt(n as int));
    }
    lo as u64
}

/// The squared length of the vector `(x, y)`.
pub open spec fn length_squared(x: int, y: int) -> int {
    x * x + y * y
}

/// Whether the vector `(x, y)` is no longer than `max`.
pub open spec fn within_magnitude(x: int, y: int, max: int) -> bool {
    length_squared(x, y) <= max * max
}

/// The vector `(x, y)` shortened, where needed, to a length of at most `max`.
///
/// A vector within the bound is kept as it is. A longer one keeps its
/// direction: both coordinates are scaled by `max` over the vector's length,
/// the length rounded up and the quotients rounded toward zero. A bound below
/// zero counts as zero.
pub open spec fn spec_limit_magnitude(x: i64, y: i64, max: i64) -> (i64, i64) {
    if max <= 0 {
        (0, 0)
    } else if within_magnitude(x as int, y as int, max as int) {
        (x, y)
    } else {
        let m = spec_ceil_sqrt(length_squared(x as int, y as int));
        (trunc_div(x * max, m) as i64, trunc_div(y * max, m) as i64)
    }
}

proof fn lemma_square_sum_bound(x: int, y: int)
    by (nonlinear_arith)
    requires
        -0x8000_0000_0000_0000 <= x <= 0x7fff_ffff_ffff_ffff,
        -0x8000_0000_0000_0000 <= y <= 0x7fff_ffff_ffff_ffff,
    ensures
        0 <= x * x <= 0x4000_0000_0000_0000_0000_0000_0000_0000,
        0 <= y * y <= 0x4000_0000_0000_0000_0000_0000_0000_0000,
{
}

/// `x * x + y * y`, which always fits.
pub fn square_sum(x: i64, y: i64) -> (s: u128)
    ensures
        s == length_squared(x as int, y as int),
{
    proof {
        lemma_square_sum_bound(x as int, y as int);
    }
    let xx: i128 = (x as i128) * (x as i128);
    let yy: i128 = (y as i128) * (y as i128);
    (xx as u128) + (yy as u128)
}

proof fn lemma_ceil_sqrt_bounds(n: int, r: int)
    by (nonlinear_arith)
    requires
        is_floor_sqrt(n, r),
        n <= 0x8000_0000_0000_0000_0000_0000_0000_0000,
    ensures
        r < 0xb504_f333_f9de_6485,
{
    if r >= 0xb504_f333_f9de_6485 {
        assert(r * r >= 0xb504_f333_f9de_6485 * 0xb504_f333_f9de_6485);
    }
}

/// The length of `(x, y)`, rounded up.
pub fn ceil_length(x: i64, y: i64) -> (m: u64)
    ensures
        m == spec_ceil_sqrt(length_squared(x as int, y as int)),
        m < 0xb504_f333_f9de_6486,
{
    let s = square_sum(x, y);
    let r = isqrt(s);
    proof {
        lemma_square_sum_bound(x as int, y as int);
        lemma_ceil_sqrt_bounds(s as int, r as int);
        lemma_square_fits(r as int);
    }
    if (r as u128) * (r as u128) == s {
        r
    } else {
        r + 1
    }
}

proof fn lemma_scaled_fits(v: int, max: int, m: int)
    by (nonlinear_arith)
    requires
        0 <= v,
        0 < max <= m,
    ensures
        0 <= (v * max) / m <= v,
{
    assert(v * max <= v * m);
    assert((v * m) / m == v);
}

proof fn lemma_ceil_exceeds(s: int, max: int, r: int)
    by (nonlinear_arith)
    requires
        is_floor_sqrt(s, r),
        0 < max,
        max * max < s,
    ensures
        max <= r,
        r * r != s ==> max < r + 1,
        r * r == s ==> max < r,
{
    if r < max {
        assert((r + 1) * (r + 1) <= max * max);
    }
}

pub fn limit_magnitude(x: i64, y: i64, max: i64) -> (r: (i64, i64))
    ensures
        r == spec_limit_magnitude(x, y, max),
{
    if max <= 0 {
        return (0, 0);
    }
    let s = square_sum(x, y);
    proof {
        lemma_product_bound(max as int, max as int);
    }
    let bound: u128 = ((max as i128) * (max as i128)) as u128;
    if s <= bound {
        return (x, y);
    }
    let m = ceil_length(x, y);
    proof {
        let root = spec_isqrt(s as int);
        lemma_isqrt_is_root(s as int);
        lemma_square_sum_bound(x as int, y as int);
        lemma_ceil_exceeds(s as int, max as int, root);
        lemma_product_bound(x as int, max as int);
        lemma_product_bound(y as int, max as int);
        if x >= 0 {
            lemma_scaled_fits(x as int, max as int, m as int);
        } else {
            lemma_scaled_fits(-(x as int), max as int, m as int);
            assert(-(x as int) * max == -(x * max)) by (nonlinear_arith);
        }
        if y >= 0 {
            lemma_scaled_fits(y as int, max as int, m as int);
        } else {
            lemma_scaled_fits(-(y as int), max as int, m as int);
            assert(-(y as int) * max == -(y * max)) by (nonlinear_arith);
        }
    }
    let nx: i128 = ((x as i128) * (max as i128)) / (m as i128);
    let ny: i128 = ((y as i128) * (max as i128)) / (m as i128);
    (nx as i64, ny as i64)
}

proof fn lemma_scaled_square(v: int, max: int, m: int)
    by (nonlinear_arith)
    requires
        0 <= v,
        0 < max,
        0 < m,
    ensures
        0 <= (v * max) / m,
        ((v * max) / m) * ((v * max) / m) * (m * m) <= (v * v) * (max * max),
{
    let q = (v * max) / m;
    assert(0 <= q);
    assert(q * m <= v * max);
    assert((q * m) * (q * m) <= (v * max) * (v * max));
}

proof fn lemma_cancel_square(a: int, b: int, s: int, max: int, m: int)
    by (nonlinear_arith)
    requires
        0 < m,
        0 <= max,
        0 <= s <= m * m,
        0 <= a,
        0 <= b,
        (a + b) * (m * m) <= s * (max * max),
    ensures
        a + b <= max * max,
{
    assert(s * (max * max) <= (m * m) * (max * max));
    if a + b > max * max {
        assert((a + b) * (m * m) >= (max * max + 1) * (m * m));
    }
}

/// A vector that went through `spec_limit_magnitude` is never longer than
/// the bound it was held to, whatever it was before.
pub proof fn lemma_limit_magnitude_within(x: i64, y: i64, max: i64)
    requires
        0 <= max,
    ensures
        within_magnitude(
            spec_limit_magnitude(x, y, max).0 as int,
            spec_limit_magnitude(x, y, max).1 as int,
            max as int,
        ),
{
    if max > 0 && !within_magnitude(x as int, y as int, max as int) {
        let s = length_squared(x as int, y as int);
        let root = spec_isqrt(s);
        let m = spec_ceil_sqrt(s);
        let ax: int = if x >= 0 { x as int } else { -(x as int) };
        let ay: int = if y >= 0 { y as int } else { -(y as int) };
        let qx = (ax * max) / m;
        let qy = (ay * max) / m;
        lemma_square_sum_bound(x as int, y as int);
        lemma_isqrt_is_root(s);
        lemma_ceil_exceeds(s, max as int, root);
        assert(s <= m * m) by (nonlinear_arith)
            requires
                is_floor_sqrt(s, root),
                m == if root * root == s { root } else { root + 1 },
        ;
        lemma_scaled_fits(ax, max as int, m);
        lemma_scaled_fits(ay, max as int, m);
        lemma_scaled_square(ax, max as int, m);
        lemma_scaled_square(ay, max as int, m);
        assert(ax * ax == x * x && ay * ay == y * y) by (nonlinear_arith)
            requires
                ax == if x >= 0 { x as int } else { -(x as int) },
                ay == if y >= 0 { y as int } else { -(y as int) },
        ;
        assert((qx * qx + qy * qy) * (m * m) <= s * (max * max)) by (nonlinear_arith)
            requires
                qx * qx * (m * m) <= (ax * ax) * (max * max),
                qy * qy * (m * m) <= (ay * ay) * (max * max),
                s == ax * ax + ay * ay,
        ;
        assert(0 <= qx * qx && 0 <= qy * qy) by (nonlinear_arith);
        lemma_cancel_square(qx * qx, qy * qy, s, max as int, m);
        let rx = trunc_div(x * max, m);
        let ry = trunc_div(y * max, m);
        assert(-(x as int) * max == -(x * max)) by (nonlinear_arith);
        assert(-(y as int) * max == -(y * max)) by (nonlinear_arith);
        assert(ax * max >= 0 && ay * max >= 0) by (nonlinear_arith)
            requires
                ax >= 0,
                ay >= 0,
                max > 0,
        ;
        assert(rx == qx || rx == -qx);
        assert(ry == qy || ry == -qy);
        assert(rx * rx == qx * qx && ry * ry == qy * qy) by (nonlinear_arith)
            requires
                rx == qx || rx == -qx,
                ry == qy || ry == -qy,
        ;
        assert(rx as i64 == rx && ry as i64 == ry);
        assert(spec_limit_magnitude(x, y, max) == (rx as i64, ry as i64));
        assert(rx * rx + ry * ry <= max * max);
    } else if max > 0 {
        assert(spec_limit_magnitude(x, y, max) == (x, y));
    } else {
        assert(spec_limit_magnitude(x, y, max) == (0i64, 0i64));
        assert(within_magnitude(0, 0, 0)) by (nonlinear_arith);
    }
}

/// The arc that stands for the sine over half a turn, `0 <= x <= PI`: a
/// quotient of two quadratics that is exact at both ends and in the middle.
pub open spec fn spec_arc(x: int) -> int {
    let p = x * (PI - x);
    (16 * ONE * p) / (5 * PI * PI - 4 * p)
}

/// An approximation of the sine of a fixed-point angle, scaled by `ONE`:
/// the arc above over the first half turn, its mirror image over the
/// second. It is exact at every quarter turn and stays within two
/// thousandths of the sine in between; of that distance nothing is proved
/// here, only that the value stays within one unit.
pub open spec fn spec_sin(angle: int) -> int {
    let a = angle % (TAU as int);
    if a <= PI {
        spec_arc(a)
    } else {
        -spec_arc(a - PI)
    }
}

/// An approximation of the cosine of a fixed-point angle, scaled by `ONE`:
/// the approximate sine a quarter turn on.
pub open spec fn spec_cos(angle: int) -> int {
    spec_sin(angle + HALF_PI)
}

proof fn lemma_arc_product(x: int)
    by (nonlinear_arith)
    requires
        0 <= x <= 3_141_592,
    ensures
        0 <= x * (3_141_592 - x) <= 2_467_400_073_616,
{
    assert((3_141_592 - 2 * x) * (3_141_592 - 2 * x) >= 0);
}

proof fn lemma_quotient_bounds(n: int, d: int, k: int)
    by (nonlinear_arith)
    requires
        0 <= n <= k * d,
        0 < d,
    ensures
        0 <= n / d <= k,
{
}

/// The arc stays between zero and `ONE`.
pub proof fn lemma_arc_bounded(x: int)
    requires
        0 <= x <= PI,
    ensures
        0 <= spec_arc(x) <= ONE,
{
    lemma_arc_product(x);
    let p = x * (PI - x);
    assert(5 * PI * PI == 49_348_001_472_320) by (nonlinear_arith)
        requires
            PI == 3_141_592,
    ;
    assert(16 * ONE * p == 16_000_000 * p) by (nonlinear_arith)
        requires
            ONE == 1_000_000,
    ;
    lemma_quotient_bounds(16_000_000 * p, 49_348_001_472_320 - 4 * p, 1_000_000);
}

/// Sine and cosine stay within one unit.
pub proof fn lemma_sin_cos_bounded(angle: int)
    ensures
        -ONE <= spec_sin(angle) <= ONE,
        -ONE <= spec_cos(angle) <= ONE,
{
    let a = angle % (TAU as int);
    if a <= PI {
        lemma_arc_bounded(a);
    } else {
        lemma_arc_bounded(a - PI);
    }
    let b = (angle + HALF_PI) % (TAU as int);
    if b <= PI {
        lemma_arc_bounded(b);
    } else {
        lemma_arc_bounded(b - PI);
    }
}

fn arc(x: i128) -> (r: i64)
    requires
        0 <= x <= PI,
    ensures
        r == spec_arc(x as int),
        0 <= r <= ONE,
{
    proof {
        lemma_arc_product(x as int);
        lemma_arc_bounded(x as int);
    }
    let p: i128 = x * (PI as i128 - x);
    let numerator: i128 = 16_000_000 * p;
    let denominator: i128 = 49_348_001_472_320 - 4 * p;
    (numerator / denominator) as i64
}

fn sin_wide(angle: i128) -> (r: i64)
    requires
        -0x1_0000_0000_0000_0000 <= angle <= 0x1_0000_0000_0000_0000,
    ensures
        r == spec_sin(angle as int),
        -ONE <= r <= ONE,
{
    let t: i128 = angle % (TAU as i128);
    let a: i128 = if t < 0 {
        t + TAU as i128
    } else {
        t
    };
    assert(a == (angle as int) % (TAU as int));
    if a <= PI as i128 {
        arc(a)
    } else {
        -arc(a - PI as i128)
    }
}

/// The approximate sine of `angle`, scaled by `ONE`; see `spec_sin` for how
/// close to the sine it is.
pub fn sin(angle: i64) -> (r: i64)
    ensures
        r == spec_sin(angle as int),
        -ONE <= r <= ONE,
{
    sin_wide(angle as i128)
}

/// The approximate cosine of `angle`, scaled by `ONE`; see `spec_cos`.
pub fn cos(angle: i64) -> (r: i64)
    ensures
        r == spec_cos(angle as int),
        -ONE <= r <= ONE,
{
    sin_wide(angle as i128 + HALF_PI as i128)
}

} // verus!
