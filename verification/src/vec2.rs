//! Two-dimensional vectors of fixed-point scalars.
//!
//! Every operation states its result exactly, component by component, over
//! the integer model of `fixed`.

use vstd::prelude::*;

use crate::fixed::{
    clamp64, clamp_spec, isqrt128, isqrt_spec, lemma_mul63_bounds, lemma_square_nonneg, mul64,
    sat64, sat_spec, tdiv128, tdiv_spec, I64_MAX, SCALE,
};
use crate::fixed::lemma_isqrt_bounds;

verus! {

/// Both components lie in the symmetric range `[-(2^63 - 1), 2^63 - 1]`,
/// which keeps sums of products of components inside `i128`.
pub open spec fn in_sym_range(v: Vec2) -> bool {
    -I64_MAX <= v.x <= I64_MAX && -I64_MAX <= v.y <= I64_MAX
}

#[derive(Clone, Copy, PartialEq, Eq, Structural, Debug)]
pub struct Vec2 {
    pub x: i64,
    pub y: i64,
}

/// Squared length of `(x, y)` as an unbounded integer.
pub open spec fn len_sq_of(x: int, y: int) -> int {
    x * x + y * y
}

pub open spec fn len_sq_spec(v: Vec2) -> int {
    len_sq_of(v.x as int, v.y as int)
}

/// The first component of the unit direction of `(x, y)`, scaled by `SCALE`,
/// using the integer square root of the squared length; zero maps to zero.
pub open spec fn unit_x_of(x: int, y: int) -> int {
    if len_sq_of(x, y) == 0 {
        0
    } else {
        tdiv_spec(x * SCALE, isqrt_spec(len_sq_of(x, y)))
    }
}

pub open spec fn unit_y_of(x: int, y: int) -> int {
    if len_sq_of(x, y) == 0 {
        0
    } else {
        tdiv_spec(y * SCALE, isqrt_spec(len_sq_of(x, y)))
    }
}

/// A component of a unit direction never exceeds `SCALE` in size: the
/// squared length dominates each component's square, so the integer square
/// root dominates the component.
pub proof fn lemma_unit_bounded(x: int, y: int)
    ensures
        -SCALE <= unit_x_of(x, y) <= SCALE,
        -SCALE <= unit_y_of(x, y) <= SCALE,
{
    if len_sq_of(x, y) == 0 {
    } else {
        let l2 = len_sq_of(x, y);
        lemma_square_nonneg(x);
        lemma_square_nonneg(y);
        crate::fixed::lemma_isqrt_bounds(l2);
        let root = isqrt_spec(l2);
        assert(-root <= x <= root && -root <= y <= root) by (nonlinear_arith)
            requires
                x * x <= l2,
                y * y <= l2,
                root >= 0,
                l2 < (root + 1) * (root + 1),
        ;
        assert(root >= 1);
        lemma_tdiv_bounded(x * SCALE, root, SCALE as int);
        lemma_tdiv_bounded(y * SCALE, root, SCALE as int);
        assert(-(root * SCALE) <= x * SCALE <= root * SCALE
            && -(root * SCALE) <= y * SCALE <= root * SCALE) by (nonlinear_arith)
            requires
                -root <= x <= root,
                -root <= y <= root,
                SCALE as int > 0,
        ;
    }
}

/// If `|a| <= m * b` with `b > 0` and `m >= 0`, then `|a / b| <= m` under
/// truncating division.
pub proof fn lemma_tdiv_bounded(a: int, b: int, m: int)
    requires
        b > 0,
        m >= 0,
        -(m * b) <= a <= m * b,
    ensures
        -m <= tdiv_spec(a, b) <= m,
{
    if a >= 0 {
        assert(a / b <= m && a / b >= 0) by (nonlinear_arith)
            requires
                b > 0,
                m >= 0,
                0 <= a <= m * b,
        ;
    } else {
        assert((-a) / b <= m && (-a) / b >= 0) by (nonlinear_arith)
            requires
                b > 0,
                m >= 0,
                0 <= -a <= m * b,
        ;
    }
}

impl Vec2 {
    pub fn zero() -> (r: Vec2)
        ensures
            r.x == 0,
            r.y == 0,
    {
        Vec2 { x: 0, y: 0 }
    }

    /// Componentwise sum, saturating at the `i64` bounds.
    pub fn plus(self, o: Vec2) -> (r: Vec2)
        ensures
            r.x == sat_spec(self.x + o.x),
            r.y == sat_spec(self.y + o.y),
    {
        Vec2 {
            x: sat64(self.x as i128 + o.x as i128),
            y: sat64(self.y as i128 + o.y as i128),
        }
    }

    /// Componentwise difference, saturating at the `i64` bounds.
    pub fn minus(self, o: Vec2) -> (r: Vec2)
        ensures
            r.x == sat_spec(self.x - o.x),
            r.y == sat_spec(self.y - o.y),
    {
        Vec2 {
            x: sat64(self.x as i128 - o.x as i128),
            y: sat64(self.y as i128 - o.y as i128),
        }
    }

    /// Negation, saturating at the `i64` bounds.
    pub fn neg(self) -> (r: Vec2)
        ensures
            r.x == sat_spec(-self.x),
            r.y == sat_spec(-self.y),
    {
        Vec2 { x: sat64(-(self.x as i128)), y: sat64(-(self.y as i128)) }
    }

    /// Scaling by a fixed-point factor `k`: each component becomes
    /// `component * k / SCALE`, truncated, saturating.
    pub fn scaled(self, k: i64) -> (r: Vec2)
        ensures
            r.x == sat_spec(tdiv_spec(self.x * k, SCALE as int)),
            r.y == sat_spec(tdiv_spec(self.y * k, SCALE as int)),
    {
        Vec2 {
            x: sat64(tdiv128(mul64(self.x, k), SCALE as i128)),
            y: sat64(tdiv128(mul64(self.y, k), SCALE as i128)),
        }
    }

    /// `self * num / den` for a positive `i128` denominator, truncated,
    /// saturating.
    pub fn scaled_frac(self, num: i64, den: i128) -> (r: Vec2)
        requires
            den > 0,
        ensures
            r.x == sat_spec(tdiv_spec(self.x * num, den as int)),
            r.y == sat_spec(tdiv_spec(self.y * num, den as int)),
    {
        Vec2 {
            x: sat64(tdiv128(mul64(self.x, num), den)),
            y: sat64(tdiv128(mul64(self.y, num), den)),
        }
    }

    /// Exact squared length, in `i128` where it cannot overflow.
    pub fn len_sq(self) -> (r: i128)
        requires
            in_sym_range(self),
        ensures
            r == len_sq_spec(self),
            r >= 0,
    {
        proof {
            lemma_mul63_bounds(self.x as int, self.x as int);
            lemma_mul63_bounds(self.y as int, self.y as int);
            lemma_square_nonneg(self.x as int);
            lemma_square_nonneg(self.y as int);
        }
        mul64(self.x, self.x) + mul64(self.y, self.y)
    }

    /// Exact dot product with another vector, in `i128`.
    pub fn dot(self, o: Vec2) -> (r: i128)
        requires
            in_sym_range(self),
            in_sym_range(o),
        ensures
            r == self.x * o.x + self.y * o.y,
    {
        proof {
            lemma_mul63_bounds(self.x as int, o.x as int);
            lemma_mul63_bounds(self.y as int, o.y as int);
        }
        mul64(self.x, o.x) + mul64(self.y, o.y)
    }

    /// Exact two-dimensional cross product `self.x*o.y - self.y*o.x`, in `i128`.
    pub fn cross(self, o: Vec2) -> (r: i128)
        requires
            in_sym_range(self),
            in_sym_range(o),
        ensures
            r == self.x * o.y - self.y * o.x,
    {
        proof {
            lemma_mul63_bounds(self.x as int, o.y as int);
            lemma_mul63_bounds(self.y as int, o.x as int);
        }
        mul64(self.x, o.y) - mul64(self.y, o.x)
    }

    /// The unit direction of `self`, scaled by `SCALE`; zero stays zero.
    pub fn unit(self) -> (r: Vec2)
        requires
            in_sym_range(self),
        ensures
            r.x == unit_x_of(self.x as int, self.y as int),
            r.y == unit_y_of(self.x as int, self.y as int),
            -SCALE <= r.x <= SCALE,
            -SCALE <= r.y <= SCALE,
    {
        proof {
            lemma_unit_bounded(self.x as int, self.y as int);
        }
        let l2: i128 = self.len_sq();
        if l2 == 0 {
            Vec2 { x: 0, y: 0 }
        } else {
            let len: i128 = isqrt128(l2);
            proof {
                crate::fixed::lemma_isqrt_bounds(l2 as int);
                assert(len > 0) by (nonlinear_arith)
                    requires
                        len * len <= l2 as int,
                        (l2 as int) < (len + 1) * (len + 1),
                        l2 as int > 0,
                        len >= 0,
                ;
            }
            Vec2 {
                x: sat64(tdiv128(mul64(self.x, SCALE), len)),
                y: sat64(tdiv128(mul64(self.y, SCALE), len)),
            }
        }
    }

    /// The perpendicular to the right of `self` (for y growing upward):
    /// `(y, -x)`, saturating.
    pub fn right(self) -> (r: Vec2)
        ensures
            r.x == self.y,
            r.y == sat_spec(-self.x),
    {
        Vec2 { x: self.y, y: sat64(-(self.x as i128)) }
    }

    /// Rotation by an angle given as a fixed-point cosine and sine pair:
    /// `(x*c - y*s, x*s + y*c) / SCALE`, truncated, saturating.
    pub fn rotated(self, c: i64, s: i64) -> (r: Vec2)
        requires
            in_sym_range(self),
            -I64_MAX <= c <= I64_MAX,
            -I64_MAX <= s <= I64_MAX,
        ensures
            r.x == sat_spec(tdiv_spec(self.x * c - self.y * s, SCALE as int)),
            r.y == sat_spec(tdiv_spec(self.x * s + self.y * c, SCALE as int)),
    {
        proof {
            lemma_mul63_bounds(self.x as int, c as int);
            lemma_mul63_bounds(self.y as int, s as int);
            lemma_mul63_bounds(self.x as int, s as int);
            lemma_mul63_bounds(self.y as int, c as int);
        }
        let xc: i128 = mul64(self.x, c);
        let ys: i128 = mul64(self.y, s);
        let xs: i128 = mul64(self.x, s);
        let yc: i128 = mul64(self.y, c);
        Vec2 {
            x: sat64(tdiv128(xc - ys, SCALE as i128)),
            y: sat64(tdiv128(xs + yc, SCALE as i128)),
        }
    }

    /// Clamp both components into `[-bound, bound]`.
    pub fn clamped(self, bound: i64) -> (r: Vec2)
        requires
            bound >= 0,
        ensures
            r.x == clamp_spec(self.x as int, bound as int),
            r.y == clamp_spec(self.y as int, bound as int),
            -bound <= r.x <= bound,
            -bound <= r.y <= bound,
    {
        Vec2 {
            x: clamp64(self.x as i128, bound),
            y: clamp64(self.y as i128, bound),
        }
    }
}

} // verus!
