//! Plane geometry on fixed-point coordinates: the `Point` value type with
//! addition, subtraction, scaling and rotation, and the algebraic laws of the
//! rotation map.

use vstd::prelude::*;
use crate::fixed::{FX_ONE, fx_abs, fx_mul, mul_fx};

verus! {

/// A 2D point or vector; both coordinates are fixed-point counts of
/// millionths (see [`crate::fixed`]).
#[derive(Clone, Copy, PartialEq, Eq, Structural, Debug)]
pub struct Point {
    pub x: i64,
    pub y: i64,
}

/// First coordinate of `(x, y)` rotated by the angle whose cosine is `c` and
/// whose sine is `s` (both fixed-point).
pub open spec fn rot_x(x: int, y: int, c: int, s: int) -> int {
    fx_mul(x, c) - fx_mul(y, s)
}

/// Second coordinate of `(x, y)` rotated by the angle whose cosine is `c` and
/// whose sine is `s` (both fixed-point).
pub open spec fn rot_y(x: int, y: int, c: int, s: int) -> int {
    fx_mul(x, s) + fx_mul(y, c)
}

pub open spec fn fits_i64(v: int) -> bool {
    i64::MIN <= v <= i64::MAX
}

impl Point {
    /// The origin.
    pub fn zero() -> (r: Point)
        ensures
            r.x == 0,
            r.y == 0,
    {
        Point { x: 0, y: 0 }
    }

    /// Componentwise sum.
    pub fn add(self, other: Point) -> (r: Point)
        requires
            fits_i64(self.x + other.x),
            fits_i64(self.y + other.y),
        ensures
            r.x == self.x + other.x,
            r.y == self.y + other.y,
    {
        Point { x: self.x + other.x, y: self.y + other.y }
    }

    /// Componentwise difference.
    pub fn sub(self, other: Point) -> (r: Point)
        requires
            fits_i64(self.x - other.x),
            fits_i64(self.y - other.y),
        ensures
            r.x == self.x - other.x,
            r.y == self.y - other.y,
    {
        Point { x: self.x - other.x, y: self.y - other.y }
    }

    /// Fixed-point scaling of both coordinates by `v`.
    pub fn mul(self, v: i64) -> (r: Point)
        requires
            fx_abs((self.x as int) * (v as int)) <= (i64::MAX as int) * (FX_ONE as int),
            fx_abs((self.y as int) * (v as int)) <= (i64::MAX as int) * (FX_ONE as int),
        ensures
            r.x == fx_mul(self.x as int, v as int),
            r.y == fx_mul(self.y as int, v as int),
    {
        Point { x: mul_fx(self.x, v), y: mul_fx(self.y, v) }
    }

    /// Rotation about the origin by the angle whose cosine and sine are the
    /// fixed-point samples `c` and `s` (supplied by the caller, since they
    /// are transcendental in the angle).
    pub fn rotate(self, c: i64, s: i64) -> (r: Point)
        requires
            fx_abs(c as int) <= FX_ONE as int,
            fx_abs(s as int) <= FX_ONE as int,
            fx_abs(self.x as int) + fx_abs(self.y as int) <= i64::MAX as int,
        ensures
            r.x == rot_x(self.x as int, self.y as int, c as int, s as int),
            r.y == rot_y(self.x as int, self.y as int, c as int, s as int),
    {
        proof {
            crate::fixed::lemma_fx_mul_mag(self.x as int, c as int);
            crate::fixed::lemma_fx_mul_mag(self.y as int, s as int);
            crate::fixed::lemma_fx_mul_mag(self.x as int, s as int);
            crate::fixed::lemma_fx_mul_mag(self.y as int, c as int);
            assert(fx_abs((self.x as int) * (c as int)) <= (i64::MAX as int) * (FX_ONE as int))
                by (nonlinear_arith)
                requires
                    fx_abs(c as int) <= FX_ONE as int,
                    fx_abs(self.x as int) <= i64::MAX as int,
            ;
            assert(fx_abs((self.y as int) * (s as int)) <= (i64::MAX as int) * (FX_ONE as int))
                by (nonlinear_arith)
                requires
                    fx_abs(s as int) <= FX_ONE as int,
                    fx_abs(self.y as int) <= i64::MAX as int,
            ;
            assert(fx_abs((self.x as int) * (s as int)) <= (i64::MAX as int) * (FX_ONE as int))
                by (nonlinear_arith)
                requires
                    fx_abs(s as int) <= FX_ONE as int,
                    fx_abs(self.x as int) <= i64::MAX as int,
            ;
            assert(fx_abs((self.y as int) * (c as int)) <= (i64::MAX as int) * (FX_ONE as int))
                by (nonlinear_arith)
                requires
                    fx_abs(c as int) <= FX_ONE as int,
                    fx_abs(self.y as int) <= i64::MAX as int,
            ;
        }
        let xc: i64 = mul_fx(self.x, c);
        let ys: i64 = mul_fx(self.y, s);
        let xs: i64 = mul_fx(self.x, s);
        let yc: i64 = mul_fx(self.y, c);
        Point { x: xc - ys, y: xs + yc }
    }
}

/// Rotation is an isometry, stated exactly on the unscaled integer rotation:
/// the squared norm of the rotated vector is the squared norm of the vector
/// times the squared norm `c*c + s*s` of the direction sample. With an exact
/// unit direction the two squared norms are equal.
pub proof fn lemma_rotation_preserves_norm(x: int, y: int, c: int, s: int)
    ensures
        (x * c - y * s) * (x * c - y * s) + (x * s + y * c) * (x * s + y * c) == (x * x + y * y) * (
        c * c + s * s),
{
    assert((x * c - y * s) * (x * c - y * s) == (x * c) * (x * c) - 2 * ((x * c) * (y * s)) + (y
        * s) * (y * s)) by (nonlinear_arith);
    assert((x * s + y * c) * (x * s + y * c) == (x * s) * (x * s) + 2 * ((x * s) * (y * c)) + (y
        * c) * (y * c)) by (nonlinear_arith);
    assert((x * c) * (y * s) == (x * s) * (y * c)) by (nonlinear_arith);
    assert((x * c) * (x * c) == (x * x) * (c * c)) by (nonlinear_arith);
    assert((y * s) * (y * s) == (y * y) * (s * s)) by (nonlinear_arith);
    assert((x * s) * (x * s) == (x * x) * (s * s)) by (nonlinear_arith);
    assert((y * c) * (y * c) == (y * y) * (c * c)) by (nonlinear_arith);
    assert((x * x + y * y) * (c * c + s * s) == (x * x) * (c * c) + (x * x) * (s * s) + (y * y) * (
    c * c) + (y * y) * (s * s)) by (nonlinear_arith);
}

/// Rotating by the zero angle (cosine one, sine zero) moves no point.
pub proof fn lemma_rotation_by_zero(p: Point)
    ensures
        rot_x(p.x as int, p.y as int, FX_ONE as int, 0) == p.x as int,
        rot_y(p.x as int, p.y as int, FX_ONE as int, 0) == p.y as int,
{
    crate::fixed::lemma_fx_mul_one(p.x as int);
    crate::fixed::lemma_fx_mul_one(p.y as int);
}

/// Two rotations compose to the rotation by the summed angle, stated exactly
/// on the unscaled integer rotation: rotating by `(c1, s1)` and then by
/// `(c2, s2)` is rotating by the angle-sum sample
/// `(c1*c2 - s1*s2, s1*c2 + c1*s2)`, which is the cosine/sine addition law.
pub proof fn lemma_rotation_compose(x: int, y: int, c1: int, s1: int, c2: int, s2: int)
    ensures
        (x * c1 - y * s1) * c2 - (x * s1 + y * c1) * s2 == x * (c1 * c2 - s1 * s2) - y * (s1 * c2
            + c1 * s2),
        (x * c1 - y * s1) * s2 + (x * s1 + y * c1) * c2 == x * (s1 * c2 + c1 * s2) + y * (c1 * c2
            - s1 * s2),
{
    assert((x * c1 - y * s1) * c2 == x * (c1 * c2) - y * (s1 * c2)) by (nonlinear_arith);
    assert((x * s1 + y * c1) * s2 == x * (s1 * s2) + y * (c1 * s2)) by (nonlinear_arith);
    assert((x * c1 - y * s1) * s2 == x * (c1 * s2) - y * (s1 * s2)) by (nonlinear_arith);
    assert((x * s1 + y * c1) * c2 == x * (s1 * c2) + y * (c1 * c2)) by (nonlinear_arith);
    assert(x * (c1 * c2 - s1 * s2) == x * (c1 * c2) - x * (s1 * s2)) by (nonlinear_arith);
    assert(y * (s1 * c2 + c1 * s2) == y * (s1 * c2) + y * (c1 * s2)) by (nonlinear_arith);
    assert(x * (s1 * c2 + c1 * s2) == x * (s1 * c2) + x * (c1 * s2)) by (nonlinear_arith);
    assert(y * (c1 * c2 - s1 * s2) == y * (c1 * c2) - y * (s1 * s2)) by (nonlinear_arith);
}

} // verus!
