//! Planar integer vectors and the arithmetic the simulation is built on.
//!
//! Directions are carried at a fixed milli-unit scale (`DIR_SCALE`): a unit
//! vector has length about 1000. All operations are exact integer formulas,
//! with truncating division, and every executable function mirrors a spec
//! function of the same shape.

use vstd::prelude::*;

verus! {

/// Scale at which unit direction vectors are carried: a normalized vector
/// has length approximately `DIR_SCALE`.
pub const DIR_SCALE: i64 = 1000;

/// Largest coordinate magnitude the simulation admits for positions.
pub const COORD_LIMIT: i64 = 1_000_000;

/// Largest velocity component magnitude; velocity updates saturate here.
pub const VEL_LIMIT: i64 = 1_000_000;

/// Largest accumulated impulse component; impulse accumulation saturates here.
pub const IMPULSE_LIMIT: i64 = 1_000_000_000;

/// Magnitude bound under which distances between two points can be computed
/// without overflowing 64-bit arithmetic.
pub const DIST_BOUND: i64 = 700_000_000;

#[derive(Clone, Copy, Debug, PartialEq, Eq, Structural)]
pub struct Vec2i {
    pub x: i64,
    pub y: i64,
}

/// Division rounding toward zero, the rule used for every scaling step in
/// the simulation (spec `/` on `int` rounds toward negative infinity instead).
pub open spec fn spec_div_trunc(a: int, b: int) -> int {
    if a >= 0 {
        a / b
    } else {
        -((-a) / b)
    }
}

/// Quotient of `a` by `b`, rounded toward zero.
pub fn div_trunc(a: i64, b: i64) -> (r: i64)
    requires
        1 <= b,
        -9_000_000_000_000_000_000 <= a <= 9_000_000_000_000_000_000,
    ensures
        r == spec_div_trunc(a as int, b as int),
        a >= 0 ==> 0 <= r <= a,
        a < 0 ==> a <= r <= 0,
{
    if a >= 0 {
        proof {
            vstd::arithmetic::div_mod::lemma_div_pos_is_pos(a as int, b as int);
            vstd::arithmetic::div_mod::lemma_div_nonincreasing(a as int, b as int);
        }
        a / b
    } else {
        proof {
            vstd::arithmetic::div_mod::lemma_div_pos_is_pos(-(a as int), b as int);
            vstd::arithmetic::div_mod::lemma_div_nonincreasing(-(a as int), b as int);
        }
        -((-a) / b)
    }
}

/// If `|a| <= b * m` with `b >= 1` and `m >= 0`, the truncated quotient of
/// `a` by `b` lies in `[-m, m]`.
pub proof fn lemma_div_trunc_bound(a: int, b: int, m: int)
    requires
        1 <= b,
        0 <= m,
        -(b * m) <= a <= b * m,
    ensures
        -m <= spec_div_trunc(a, b) <= m,
{
    if a >= 0 {
        vstd::arithmetic::div_mod::lemma_div_pos_is_pos(a, b);
        vstd::arithmetic::div_mod::lemma_div_is_ordered(a, b * m, b);
        vstd::arithmetic::div_mod::lemma_div_multiples_vanish(m, b);
        assert(b * m == m * b) by (nonlinear_arith);
    } else {
        vstd::arithmetic::div_mod::lemma_div_pos_is_pos(-a, b);
        vstd::arithmetic::div_mod::lemma_div_is_ordered(-a, b * m, b);
        vstd::arithmetic::div_mod::lemma_div_multiples_vanish(m, b);
        assert(b * m == m * b) by (nonlinear_arith);
    }
}

/// Both components of `v` lie within `[-bound, bound]`.
pub open spec fn in_bounds(v: Vec2i, bound: int) -> bool {
    -bound <= v.x <= bound && -bound <= v.y <= bound
}

pub open spec fn spec_norm_sq(v: Vec2i) -> int {
    v.x * v.x + v.y * v.y
}

/// Floor of the square root of a non-negative integer.
pub open spec fn sqrt_floor(n: int) -> int
    decreases n,
{
    if n <= 0 {
        0
    } else {
        let r = sqrt_floor(n - 1);
        if (r + 1) * (r + 1) <= n {
            r + 1
        } else {
            r
        }
    }
}

pub proof fn lemma_sqrt_floor_props(n: int)
    requires
        n >= 0,
    ensures
        sqrt_floor(n) >= 0,
        sqrt_floor(n) * sqrt_floor(n) <= n,
        n < (sqrt_floor(n) + 1) * (sqrt_floor(n) + 1),
    decreases n,
{
    if n == 0 {
    } else {
        lemma_sqrt_floor_props(n - 1);
        let r = sqrt_floor(n - 1);
        if (r + 1) * (r + 1) <= n {
            assert(n - 1 < (r + 1) * (r + 1));
            assert(n == (r + 1) * (r + 1));
            assert(n < ((r + 1) + 1) * ((r + 1) + 1)) by (nonlinear_arith)
                requires n == (r + 1) * (r + 1) && r >= 0;
        } else {
        }
    }
}

pub proof fn lemma_sqrt_floor_unique(n: int, r: int)
    requires
        n >= 0,
        r >= 0,
        r * r <= n,
        n < (r + 1) * (r + 1),
    ensures
        r == sqrt_floor(n),
{
    let s = sqrt_floor(n);
    lemma_sqrt_floor_props(n);
    if r < s {
        assert((r + 1) * (r + 1) <= s * s) by (nonlinear_arith)
            requires 0 <= r + 1 <= s;
        assert(false);
    }
    if s < r {
        assert((s + 1) * (s + 1) <= r * r) by (nonlinear_arith)
            requires 0 <= s + 1 <= r;
        assert(false);
    }
}

/// If `a * a <= n` then the floor square root of `n` is at least `a`.
pub proof fn lemma_sqrt_floor_at_least(n: int, a: int)
    requires
        0 <= a,
        a * a <= n,
    ensures
        sqrt_floor(n) >= a,
{
    let s = sqrt_floor(n);
    lemma_sqrt_floor_props(n);
    if s < a {
        assert((s + 1) * (s + 1) <= a * a) by (nonlinear_arith)
            requires 0 <= s + 1 <= a;
        assert(false);
    }
}

/// If `n < (b + 1) * (b + 1)` then the floor square root of `n` is at most `b`.
pub proof fn lemma_sqrt_floor_at_most(n: int, b: int)
    requires
        n >= 0,
        b >= 0,
        n < (b + 1) * (b + 1),
    ensures
        sqrt_floor(n) <= b,
{
    let s = sqrt_floor(n);
    lemma_sqrt_floor_props(n);
    if b < s {
        assert((b + 1) * (b + 1) <= s * s) by (nonlinear_arith)
            requires 0 <= b + 1 <= s;
        assert(false);
    }
}

/// Floor square root, by binary search.
pub fn isqrt(n: u64) -> (r: u64)
    requires
        n < 0x4000_0000_0000_0000,
    ensures
        r as int == sqrt_floor(n as int),
        r * r <= n,
        n < (r + 1) * (r + 1),
        r < 0x8000_0000,
{
    let mut lo: u64 = 0;
    let mut hi: u64 = 0x8000_0000;
    assert(hi * hi > n) by (nonlinear_arith)
        requires hi == 0x8000_0000u64 && n < 0x4000_0000_0000_0000u64;
    while lo + 1 < hi
        invariant
            lo < hi <= 0x8000_0000,
            lo * lo <= n,
            n < hi * hi,
        decreases hi - lo,
    {
        let mid: u64 = lo + (hi - lo) / 2;
        assert(mid * mid < 0x4000_0000_0000_0000u64 * 2) by (nonlinear_arith)
            requires mid < 0x8000_0000u64;
        if mid * mid <= n {
            lo = mid;
        } else {
            hi = mid;
        }
    }
    proof {
        lemma_sqrt_floor_unique(n as int, lo as int);
    }
    lo
}

/// Squared Euclidean norm.
pub fn norm_sq(v: Vec2i) -> (r: i64)
    requires
        in_bounds(v, 1_500_000_000),
    ensures
        r == spec_norm_sq(v),
        0 <= r <= 4_500_000_000_000_000_000,
{
    proof {
        assert(0 <= v.x * v.x <= 2_250_000_000_000_000_000) by (nonlinear_arith)
            requires -1_500_000_000 <= v.x <= 1_500_000_000;
        assert(0 <= v.y * v.y <= 2_250_000_000_000_000_000) by (nonlinear_arith)
            requires -1_500_000_000 <= v.y <= 1_500_000_000;
    }
    v.x * v.x + v.y * v.y
}

pub open spec fn spec_dist(a: Vec2i, b: Vec2i) -> int {
    sqrt_floor((a.x - b.x) * (a.x - b.x) + (a.y - b.y) * (a.y - b.y))
}

/// Planar distance between two points, rounded down.
pub fn dist(a: Vec2i, b: Vec2i) -> (r: i64)
    requires
        in_bounds(a, DIST_BOUND as int),
        in_bounds(b, DIST_BOUND as int),
    ensures
        r == spec_dist(a, b),
        0 <= r <= 2_000_000_000,
{
    let d = Vec2i { x: a.x - b.x, y: a.y - b.y };
    let n = norm_sq(d);
    let r = isqrt(n as u64);
    proof {
        assert(n < 2_000_000_001i64 * 2_000_000_001i64) by (nonlinear_arith)
            requires
                n == d.x * d.x + d.y * d.y,
                -1_400_000_000 <= d.x <= 1_400_000_000,
                -1_400_000_000 <= d.y <= 1_400_000_000;
        lemma_sqrt_floor_at_most(n as int, 2_000_000_000);
    }
    r as i64
}

pub open spec fn spec_scale_to(v: Vec2i, len: int) -> Vec2i {
    if v.x == 0 && v.y == 0 {
        v
    } else {
        let d = sqrt_floor(spec_norm_sq(v));
        Vec2i {
            x: spec_div_trunc(v.x * len, d) as i64,
            y: spec_div_trunc(v.y * len, d) as i64,
        }
    }
}

/// Scales `v` to length approximately `len` (exactly `v * len / |v|` with
/// truncating division); the zero vector is left unchanged.
pub fn scale_to(v: Vec2i, len: i64) -> (r: Vec2i)
    requires
        in_bounds(v, DIST_BOUND as int),
        0 <= len <= 1_000_000,
    ensures
        r == spec_scale_to(v, len as int),
        in_bounds(r, len as int),
{
    if v.x == 0 && v.y == 0 {
        v
    } else {
        let n = norm_sq(v);
        let d = isqrt(n as u64);
        proof {
            assert(v.x * v.x <= n && v.y * v.y <= n) by (nonlinear_arith)
                requires n == v.x * v.x + v.y * v.y;
            if v.x >= 0 {
                lemma_sqrt_floor_at_least(n as int, v.x as int);
            } else {
                assert((-v.x) * (-v.x) == v.x * v.x) by (nonlinear_arith);
                lemma_sqrt_floor_at_least(n as int, -v.x as int);
            }
            if v.y >= 0 {
                lemma_sqrt_floor_at_least(n as int, v.y as int);
            } else {
                assert((-v.y) * (-v.y) == v.y * v.y) by (nonlinear_arith);
                lemma_sqrt_floor_at_least(n as int, -v.y as int);
            }
            assert(d >= 1) by {
                assert(n >= 1) by (nonlinear_arith)
                    requires n == v.x * v.x + v.y * v.y && (v.x != 0 || v.y != 0);
                lemma_sqrt_floor_at_least(n as int, 1);
            }
            assert(-700_000_000_000_000i64 <= v.x * len <= 700_000_000_000_000i64) by (nonlinear_arith)
                requires -700_000_000 <= v.x <= 700_000_000 && 0 <= len <= 1_000_000;
            assert(-700_000_000_000_000i64 <= v.y * len <= 700_000_000_000_000i64) by (nonlinear_arith)
                requires -700_000_000 <= v.y <= 700_000_000 && 0 <= len <= 1_000_000;
            assert(-((d as int) * (len as int)) <= v.x * len <= (d as int) * (len as int))
                by (nonlinear_arith)
                requires -(d as int) <= v.x <= d as int && 0 <= len;
            assert(-((d as int) * (len as int)) <= v.y * len <= (d as int) * (len as int))
                by (nonlinear_arith)
                requires -(d as int) <= v.y <= d as int && 0 <= len;
            lemma_div_trunc_bound(v.x as int * len as int, d as int, len as int);
            lemma_div_trunc_bound(v.y as int * len as int, d as int, len as int);
        }
        let rx = div_trunc(v.x * len, d as i64);
        let ry = div_trunc(v.y * len, d as i64);
        Vec2i { x: rx, y: ry }
    }
}

pub open spec fn spec_clamp_length_max(v: Vec2i, m: int) -> Vec2i {
    if spec_norm_sq(v) <= m * m {
        v
    } else {
        spec_scale_to(v, m)
    }
}

/// Returns `v` unchanged if its length is at most `m`, else `v` scaled down
/// to length `m`.
pub fn clamp_length_max(v: Vec2i, m: i64) -> (r: Vec2i)
    requires
        in_bounds(v, DIST_BOUND as int),
        0 <= m <= 1_000_000,
    ensures
        r == spec_clamp_length_max(v, m as int),
        r == v || in_bounds(r, m as int),
{
    let n = norm_sq(v);
    proof {
        assert(0 <= m * m <= 1_000_000_000_000i64) by (nonlinear_arith)
            requires 0 <= m <= 1_000_000;
    }
    if n <= m * m {
        v
    } else {
        scale_to(v, m)
    }
}

pub open spec fn spec_clamp_i64(a: int, lim: int) -> int {
    if a > lim {
        lim
    } else if a < -lim {
        -lim
    } else {
        a
    }
}

pub open spec fn spec_clamp_components(v: Vec2i, lim: int) -> Vec2i {
    Vec2i { x: spec_clamp_i64(v.x as int, lim) as i64, y: spec_clamp_i64(v.y as int, lim) as i64 }
}

/// Clamps each component of `v` into `[-lim, lim]`.
pub fn clamp_components(v: Vec2i, lim: i64) -> (r: Vec2i)
    requires
        0 <= lim,
    ensures
        r == spec_clamp_components(v, lim as int),
        in_bounds(r, lim as int),
{
    let x = if v.x > lim { lim } else if v.x < -lim { -lim } else { v.x };
    let y = if v.y > lim { lim } else if v.y < -lim { -lim } else { v.y };
    Vec2i { x, y }
}

pub open spec fn spec_add(a: Vec2i, b: Vec2i) -> Vec2i {
    Vec2i { x: (a.x + b.x) as i64, y: (a.y + b.y) as i64 }
}

pub fn vec_add(a: Vec2i, b: Vec2i) -> (r: Vec2i)
    requires
        in_bounds(a, 2_000_000_000),
        in_bounds(b, 2_000_000_000),
    ensures
        r == spec_add(a, b),
{
    Vec2i { x: a.x + b.x, y: a.y + b.y }
}

pub open spec fn spec_sub(a: Vec2i, b: Vec2i) -> Vec2i {
    Vec2i { x: (a.x - b.x) as i64, y: (a.y - b.y) as i64 }
}

pub fn vec_sub(a: Vec2i, b: Vec2i) -> (r: Vec2i)
    requires
        in_bounds(a, 2_000_000_000),
        in_bounds(b, 2_000_000_000),
    ensures
        r == spec_sub(a, b),
{
    Vec2i { x: a.x - b.x, y: a.y - b.y }
}

/// Saturating vector addition: each component of the sum is clamped into
/// `[-lim, lim]`.
pub open spec fn spec_add_clamped(a: Vec2i, b: Vec2i, lim: int) -> Vec2i {
    spec_clamp_components(spec_add(a, b), lim)
}

pub fn add_clamped(a: Vec2i, b: Vec2i, lim: i64) -> (r: Vec2i)
    requires
        in_bounds(a, 2_000_000_000),
        in_bounds(b, 2_000_000_000),
        0 <= lim,
    ensures
        r == spec_add_clamped(a, b, lim as int),
        in_bounds(r, lim as int),
{
    clamp_components(vec_add(a, b), lim)
}

/// Fixed-point cosine of an angle given in milliradians, at `DIR_SCALE`,
/// by the small-angle quadratic approximation.
pub open spec fn spec_cos_milli(a: int) -> int {
    1000 - (a * a) / 2000
}

/// Fixed-point sine of an angle given in milliradians, at `DIR_SCALE`,
/// by the small-angle approximation.
pub open spec fn spec_sin_milli(a: int) -> int {
    a
}

pub open spec fn spec_rotate_mrad(v: Vec2i, a: int) -> Vec2i {
    let c = spec_cos_milli(a);
    let s = spec_sin_milli(a);
    Vec2i {
        x: spec_div_trunc(v.x * c - v.y * s, 1000) as i64,
        y: spec_div_trunc(v.x * s + v.y * c, 1000) as i64,
    }
}

/// Rotates `v` by a small angle given in milliradians, using fixed-point
/// small-angle sine and cosine at `DIR_SCALE`.
pub fn rotate_mrad(v: Vec2i, a: i64) -> (r: Vec2i)
    requires
        in_bounds(v, 1_000_000),
        -200 <= a <= 200,
    ensures
        r == spec_rotate_mrad(v, a as int),
        in_bounds(r, 1_200_000),
{
    proof {
        assert(0 <= a * a <= 40_000) by (nonlinear_arith)
            requires -200 <= a <= 200;
    }
    let c: i64 = 1000 - (a * a) / 2000;
    proof {
        assert(980 <= c <= 1000);
        assert(-1_000_000_000 <= v.x * c <= 1_000_000_000) by (nonlinear_arith)
            requires -1_000_000 <= v.x <= 1_000_000 && 0 <= c <= 1000;
        assert(-1_000_000_000 <= v.y * c <= 1_000_000_000) by (nonlinear_arith)
            requires -1_000_000 <= v.y <= 1_000_000 && 0 <= c <= 1000;
        assert(-200_000_000 <= v.x * a <= 200_000_000) by (nonlinear_arith)
            requires -1_000_000 <= v.x <= 1_000_000 && -200 <= a <= 200;
        assert(-200_000_000 <= v.y * a <= 200_000_000) by (nonlinear_arith)
            requires -1_000_000 <= v.y <= 1_000_000 && -200 <= a <= 200;
    }
    let s: i64 = a;
    proof {
        lemma_div_trunc_bound(v.x as int * c as int - v.y as int * s as int, 1000, 1_200_000);
        lemma_div_trunc_bound(v.x as int * s as int + v.y as int * c as int, 1000, 1_200_000);
    }
    let rx = div_trunc(v.x * c - v.y * s, 1000);
    let ry = div_trunc(v.x * s + v.y * c, 1000);
    Vec2i { x: rx, y: ry }
}

} // verus!
