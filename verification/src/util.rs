//! Fixed-point scalars and 2D vectors.
//!
//! A scalar is an `i64` holding a length in subpixel units: `SCALE` units are
//! one pixel.  Products of two scalars are divided by the unit again, with the
//! quotient truncated toward zero; `spec_div_trunc` is the integer model of
//! that rounding and every executable operation here is proved equal to its
//! integer model.

use vstd::arithmetic::div_mod::{
    lemma_div_is_ordered, lemma_div_multiples_vanish, lemma_div_nonincreasing,
    lemma_div_pos_is_pos,
};
use vstd::prelude::*;

verus! {

/// Subpixel units in one pixel.
pub const SCALE: i64 = 3600;

/// Mathematical model of a 2D vector: unbounded integer components, in
/// subpixel units.
pub ghost struct V2 {
    pub x: int,
    pub y: int,
}

/// A 2D vector in subpixel units.
#[derive(Clone, Copy, PartialEq, Eq, Structural, Debug)]
pub struct Vec2 {
    pub x: i64,
    pub y: i64,
}

impl View for Vec2 {
    type V = V2;

    open spec fn view(&self) -> V2 {
        V2 { x: self.x as int, y: self.y as int }
    }
}

pub open spec fn v2(x: int, y: int) -> V2 {
    V2 { x: x, y: y }
}

pub open spec fn v2_add(a: V2, b: V2) -> V2 {
    V2 { x: a.x + b.x, y: a.y + b.y }
}

pub open spec fn v2_sub(a: V2, b: V2) -> V2 {
    V2 { x: a.x - b.x, y: a.y - b.y }
}

pub open spec fn v2_neg(a: V2) -> V2 {
    V2 { x: -a.x, y: -a.y }
}

/// Squared euclidean length, in squared subpixel units.
pub open spec fn v2_norm_sq(a: V2) -> int {
    a.x * a.x + a.y * a.y
}

pub open spec fn abs(x: int) -> int {
    if x >= 0 {
        x
    } else {
        -x
    }
}

pub open spec fn sign(x: int) -> int {
    if x > 0 {
        1
    } else if x < 0 {
        -1
    } else {
        0
    }
}

/// Both components within `[-b, b]`.
pub open spec fn v2_in_range(a: V2, b: int) -> bool {
    -b <= a.x <= b && -b <= a.y <= b
}

/// Quotient truncated toward zero, the rounding of Rust's integer division
/// (`/` on `int` alone is euclidean).
pub open spec fn spec_div_trunc(p: int, d: int) -> int {
    if p >= 0 {
        p / d
    } else {
        -((-p) / d)
    }
}

/// `a * b / d`, truncated toward zero.
pub open spec fn spec_mul_div(a: int, b: int, d: int) -> int {
    spec_div_trunc(a * b, d)
}

/// Dot product of `a` and `b` divided by `d`, truncated toward zero.
pub open spec fn spec_dot_div(a: V2, b: V2, d: int) -> int {
    spec_div_trunc(a.x * b.x + a.y * b.y, d)
}

/// Truncation toward zero never grows the magnitude of a quotient.
pub proof fn lemma_div_trunc_le_magnitude(p: int, q: int, d: int)
    requires
        d > 0,
        abs(p) <= q,
    ensures
        -(q / d) <= spec_div_trunc(p, d) <= q / d,
        abs(spec_div_trunc(p, d)) <= q / d,
{
    if p >= 0 {
        lemma_div_is_ordered(p, q, d);
        lemma_div_pos_is_pos(p, d);
    } else {
        lemma_div_is_ordered(-p, q, d);
        lemma_div_pos_is_pos(-p, d);
    }
    lemma_div_pos_is_pos(q, d);
}

/// A quotient by a positive divisor is no larger in magnitude than the
/// dividend.
pub proof fn lemma_div_trunc_shrinks(p: int, d: int)
    requires
        d > 0,
    ensures
        abs(spec_div_trunc(p, d)) <= abs(p),
        sign(spec_div_trunc(p, d)) == sign(p) || spec_div_trunc(p, d) == 0,
{
    if p >= 0 {
        lemma_div_nonincreasing(p, d);
        lemma_div_pos_is_pos(p, d);
    } else {
        lemma_div_nonincreasing(-p, d);
        lemma_div_pos_is_pos(-p, d);
    }
}

/// The product of two values is bounded by the product of their bounds.
pub proof fn lemma_mul_bounds(a: int, b: int, aa: int, bb: int)
    requires
        -aa <= a <= aa,
        -bb <= b <= bb,
        0 <= aa,
        0 <= bb,
    ensures
        -(aa * bb) <= a * b <= aa * bb,
{
    assert(-(aa * bb) <= a * b <= aa * bb) by (nonlinear_arith)
        requires
            -aa <= a <= aa,
            -bb <= b <= bb,
            0 <= aa,
            0 <= bb,
    ;
}

/// `a * b / d` truncated toward zero, the one place products of fixed-point
/// scalars are formed; the product is taken exactly in `i128`.
pub fn mul_div_trunc(a: i64, b: i64, d: i64) -> (r: i64)
    requires
        d > 0,
        -0x7fff_ffff_ffff_ffff <= spec_mul_div(a as int, b as int, d as int)
            <= 0x7fff_ffff_ffff_ffff,
    ensures
        r == spec_mul_div(a as int, b as int, d as int),
{
    proof {
        lemma_mul_bounds(a as int, b as int, 0x8000_0000_0000_0000, 0x8000_0000_0000_0000);
    }
    let p: i128 = (a as i128) * (b as i128);
    if p >= 0 {
        let q: u128 = (p as u128) / (d as u128);
        assert(q == (a as int * b as int) / (d as int));
        q as i64
    } else {
        let m: u128 = ((-p) as u128) / (d as u128);
        assert(m == (-(a as int * b as int)) / (d as int));
        -(m as i64)
    }
}

/// Largest `r >= 0` with `r * r <= n` (zero for negative `n`).
pub open spec fn sqrt_floor(n: int) -> int
    decreases n,
{
    if n <= 0 {
        0
    } else {
        let r = sqrt_floor(n - 1);
        if (r + 1) * (r + 1) <= n {
            r + 1
        } else {
            r
        }
    }
}

pub proof fn lemma_sqrt_floor_bounds(n: int)
    requires
        n >= 0,
    ensures
        0 <= sqrt_floor(n),
        sqrt_floor(n) * sqrt_floor(n) <= n,
        n < (sqrt_floor(n) + 1) * (sqrt_floor(n) + 1),
    decreases n,
{
    if n > 0 {
        lemma_sqrt_floor_bounds(n - 1);
        let r = sqrt_floor(n - 1);
        if (r + 1) * (r + 1) <= n {
            assert(n < (r + 2) * (r + 2)) by (nonlinear_arith)
                requires
                    0 <= r,
                    n - 1 < (r + 1) * (r + 1),
            ;
        }
    }
}

/// The bracketing `r * r <= n < (r + 1) * (r + 1)` pins `r` down.
pub proof fn lemma_sqrt_floor_unique(n: int, r: int)
    requires
        0 <= r,
        r * r <= n,
        n < (r + 1) * (r + 1),
    ensures
        r == sqrt_floor(n),
{
    lemma_sqrt_floor_bounds(n);
    let s = sqrt_floor(n);
    if r < s {
        assert((r + 1) * (r + 1) <= s * s) by (nonlinear_arith)
            requires
                0 <= r,
                r + 1 <= s,
        ;
    }
    if s < r {
        assert((s + 1) * (s + 1) <= r * r) by (nonlinear_arith)
            requires
                0 <= s,
                s + 1 <= r,
        ;
    }
}

pub proof fn lemma_sqrt_floor_covers_square(n: int, a: int)
    requires
        0 <= a,
        a * a <= n,
    ensures
        a <= sqrt_floor(n),
{
    lemma_sqrt_floor_bounds(n);
    let s = sqrt_floor(n);
    if s < a {
        assert((s + 1) * (s + 1) <= a * a) by (nonlinear_arith)
            requires
                0 <= s,
                s + 1 <= a,
        ;
    }
}

/// Floor of the square root, by bisection on `[0, 2^63]`.
pub fn isqrt(n: u128) -> (r: u64)
    requires
        n < 0x4000_0000_0000_0000_0000_0000_0000_0000,
    ensures
        r == sqrt_floor(n as int),
{
    if n == 0 {
        return 0;
    }
    let mut lo: u128 = 0;
    let mut hi: u128 = 0x8000_0000_0000_0000;
    proof {
        assert(n < hi * hi) by (nonlinear_arith)
            requires
                n < 0x4000_0000_0000_0000_0000_0000_0000_0000,
                hi == 0x8000_0000_0000_0000,
        ;
    }
    while lo + 1 < hi
        invariant
            lo < hi <= 0x8000_0000_0000_0000,
            lo * lo <= n,
            n < hi * hi,
        decreases hi - lo,
    {
        let mid: u128 = lo + (hi - lo) / 2;
        assert(lo < mid < hi);
        proof {
            lemma_mul_bounds(mid as int, mid as int, hi as int, hi as int);
            assert(hi * hi <= 0x8000_0000_0000_0000 * 0x8000_0000_0000_0000) by (nonlinear_arith)
                requires
                    hi <= 0x8000_0000_0000_0000,
            ;
        }
        let sq: u128 = mid * mid;
        if sq <= n {
            lo = mid;
        } else {
            hi = mid;
        }
    }
    proof {
        assert(hi == lo + 1);
        lemma_sqrt_floor_unique(n as int, lo as int);
        assert(lo * lo <= n);
        assert(lo < 0x1_0000_0000_0000_0000) by (nonlinear_arith)
            requires
                lo * lo <= n,
                n < 0x4000_0000_0000_0000_0000_0000_0000_0000,
        ;
    }
    lo as u64
}

/// With `|a| <= l`, the truncated `a * b / l` is at most `|b|` in magnitude.
pub proof fn lemma_mul_div_bounded(a: int, b: int, l: int)
    requires
        l > 0,
        abs(a) <= l,
    ensures
        abs(spec_mul_div(a, b, l)) <= abs(b),
        -abs(b) <= spec_mul_div(a, b, l) <= abs(b),
{
    lemma_mul_bounds(a, b, l, abs(b));
    lemma_div_trunc_le_magnitude(a * b, l * abs(b), l);
    lemma_div_multiples_vanish(abs(b), l);
}

/// A dot product against a vector bounded by the divisor (a unit normal)
/// shrinks to at most twice the other side's bound.
pub proof fn lemma_dot_div_bounded(a: V2, b: V2, q: int, d: int)
    requires
        d > 0,
        0 <= q,
        v2_in_range(a, q),
        v2_in_range(b, d),
    ensures
        abs(spec_dot_div(a, b, d)) <= 2 * q,
        -2 * q <= spec_dot_div(a, b, d) <= 2 * q,
{
    lemma_mul_bounds(a.x, b.x, q, d);
    lemma_mul_bounds(a.y, b.y, q, d);
    assert(q * d + q * d == d * (2 * q)) by (nonlinear_arith);
    lemma_div_trunc_le_magnitude(a.x * b.x + a.y * b.y, d * (2 * q), d);
    lemma_div_multiples_vanish(2 * q, d);
}

/// Shorten `v` toward zero by `|x|` (or lengthen away from zero, for positive
/// `x`) without letting any component cross zero; zero whenever `|v| <= |x|`.
pub open spec fn spec_lengthen(v: V2, x: int) -> V2 {
    if v2_norm_sq(v) <= x * x {
        v2(0, 0)
    } else {
        let l = sqrt_floor(v2_norm_sq(v));
        v2(v.x + spec_mul_div(v.x, x, l), v.y + spec_mul_div(v.y, x, l))
    }
}

/// Bounds every party of the non-zero branch of `spec_lengthen`: the norm is
/// a positive sum of squares and each component fits under its square root.
proof fn lemma_lengthen_branch(v: V2, x: int)
    requires
        v2_norm_sq(v) > x * x,
    ensures
        v2_norm_sq(v) >= 1,
        1 <= sqrt_floor(v2_norm_sq(v)),
        abs(v.x) <= sqrt_floor(v2_norm_sq(v)),
        abs(v.y) <= sqrt_floor(v2_norm_sq(v)),
        abs(x) <= sqrt_floor(v2_norm_sq(v)),
{
    let ns = v2_norm_sq(v);
    assert(x * x >= 0 && v.x * v.x == abs(v.x) * abs(v.x) && v.y * v.y == abs(v.y) * abs(v.y)
        && x * x == abs(x) * abs(x) && v.x * v.x >= 0 && v.y * v.y >= 0) by (nonlinear_arith);
    lemma_sqrt_floor_bounds(ns);
    let l = sqrt_floor(ns);
    assert(1 * 1 <= ns);
    lemma_sqrt_floor_covers_square(ns, 1);
    lemma_sqrt_floor_covers_square(ns, abs(v.x));
    lemma_sqrt_floor_covers_square(ns, abs(v.y));
    lemma_sqrt_floor_covers_square(ns, abs(x));
}

/// Shortening or lengthening a vector never flips the sign of a component:
/// each component of the result keeps its sign or reaches exactly zero, and
/// shortening (`x <= 0`) never grows a component's magnitude.
pub proof fn lemma_lengthen_no_reverse(v: V2, x: int)
    ensures
        sign(spec_lengthen(v, x).x) == sign(v.x) || spec_lengthen(v, x).x == 0,
        sign(spec_lengthen(v, x).y) == sign(v.y) || spec_lengthen(v, x).y == 0,
        x <= 0 ==> abs(spec_lengthen(v, x).x) <= abs(v.x),
        x <= 0 ==> abs(spec_lengthen(v, x).y) <= abs(v.y),
{
    let ns = v2_norm_sq(v);
    if ns <= x * x {
    } else {
        lemma_lengthen_branch(v, x);
        let l = sqrt_floor(ns);
        lemma_mul_div_bounded(x, v.x, l);
        lemma_mul_div_bounded(x, v.y, l);
        assert(v.x * x == x * v.x && v.y * x == x * v.y);
        if x <= 0 {
            lemma_div_trunc_shrinks(v.x * x, l);
            lemma_div_trunc_shrinks(v.y * x, l);
            assert((v.x > 0 ==> v.x * x <= 0) && (v.x < 0 ==> v.x * x >= 0) && (v.y > 0
                ==> v.y * x <= 0) && (v.y < 0 ==> v.y * x >= 0)) by (nonlinear_arith)
                requires
                    x <= 0,
            ;
        }
    }
}

/// Bound within which `vector_lengthen` accepts components and amounts; the
/// sum of a component and the applied change then stays within `i64`.
pub const LENGTHEN_LIMIT: i64 = 0x2000_0000_0000_0000;

/// Shorten `v` toward zero by `|x|` without crossing zero — the resolver
/// uses this to apply a friction deceleration — or lengthen it by `x > 0`.
/// Returns zero whenever `|v|^2 <= x^2`, which also avoids normalizing a zero
/// vector.
pub fn vector_lengthen(v: Vec2, x: i64) -> (r: Vec2)
    requires
        v2_in_range(v@, LENGTHEN_LIMIT as int),
        -LENGTHEN_LIMIT <= x <= LENGTHEN_LIMIT,
    ensures
        r@ == spec_lengthen(v@, x as int),
{
    proof {
        lemma_mul_bounds(v@.x, v@.x, LENGTHEN_LIMIT as int, LENGTHEN_LIMIT as int);
        lemma_mul_bounds(v@.y, v@.y, LENGTHEN_LIMIT as int, LENGTHEN_LIMIT as int);
        lemma_mul_bounds(x as int, x as int, LENGTHEN_LIMIT as int, LENGTHEN_LIMIT as int);
    }
    let nx: i128 = (v.x as i128) * (v.x as i128);
    let ny: i128 = (v.y as i128) * (v.y as i128);
    proof {
        assert(nx >= 0 && ny >= 0) by (nonlinear_arith)
            requires
                nx == v@.x * v@.x,
                ny == v@.y * v@.y,
        ;
    }
    let ns: i128 = nx + ny;
    let xx: i128 = (x as i128) * (x as i128);
    if ns <= xx {
        Vec2 { x: 0, y: 0 }
    } else {
        proof {
            lemma_lengthen_branch(v@, x as int);
            lemma_sqrt_floor_bounds(ns as int);
            assert(sqrt_floor(ns as int) < 0x8000_0000_0000_0000) by (nonlinear_arith)
                requires
                    sqrt_floor(ns as int) * sqrt_floor(ns as int) <= ns,
                    ns < 0x4000_0000_0000_0000_0000_0000_0000_0000,
                    sqrt_floor(ns as int) >= 0,
            ;
        }
        let l: i64 = isqrt(ns as u128) as i64;
        proof {
            lemma_mul_div_bounded(x as int, v@.x, l as int);
            lemma_mul_div_bounded(x as int, v@.y, l as int);
            assert(v@.x * x == x * v@.x && v@.y * x == x * v@.y);
        }
        Vec2 { x: v.x + mul_div_trunc(v.x, x, l), y: v.y + mul_div_trunc(v.y, x, l) }
    }
}

/// Absolute value.
pub fn abs_i64(x: i64) -> (r: i64)
    requires
        -0x7fff_ffff_ffff_ffff <= x,
    ensures
        r == abs(x as int),
{
    if x >= 0 {
        x
    } else {
        -x
    }
}

/// The perpendicular of `v`, by a quarter turn: `(-y, x)`.
pub fn vector_perpendicular(v: Vec2) -> (r: Vec2)
    requires
        -0x7fff_ffff_ffff_ffff <= v@.y,
    ensures
        r@ == v2(-v@.y, v@.x),
{
    Vec2 { x: -v.y, y: v.x }
}

/// `(a.x * b.x + a.y * b.y) / d` truncated toward zero: a dot product scaled
/// back down by one fixed-point unit.
pub fn dot_div_trunc(a: Vec2, b: Vec2, d: i64) -> (r: i64)
    requires
        d > 0,
        v2_in_range(a@, 0x4000_0000_0000_0000),
        v2_in_range(b@, 0x4000_0000_0000_0000),
        -0x7fff_ffff_ffff_ffff <= spec_dot_div(a@, b@, d as int) <= 0x7fff_ffff_ffff_ffff,
    ensures
        r == spec_dot_div(a@, b@, d as int),
{
    proof {
        lemma_mul_bounds(a@.x, b@.x, 0x4000_0000_0000_0000, 0x4000_0000_0000_0000);
        lemma_mul_bounds(a@.y, b@.y, 0x4000_0000_0000_0000, 0x4000_0000_0000_0000);
    }
    let p: i128 = (a.x as i128) * (b.x as i128) + (a.y as i128) * (b.y as i128);
    if p >= 0 {
        let q: u128 = (p as u128) / (d as u128);
        assert(q == (a@.x * b@.x + a@.y * b@.y) / (d as int));
        q as i64
    } else {
        let m: u128 = ((-p) as u128) / (d as u128);
        assert(m == (-(a@.x * b@.x + a@.y * b@.y)) / (d as int));
        -(m as i64)
    }
}

} // verus!
