//! Fixed-point scalars: every fractional quantity in the engine is an `i64`
//! count of millionths of a unit, and all arithmetic on them rounds toward
//! zero, so results are pinned exactly by the contracts.

use vstd::prelude::*;

verus! {

/// Number of fixed-point steps in one unit: a value `v` stands for the
/// rational `v / 1_000_000`.
pub const FX_ONE: i64 = 1_000_000;

/// Absolute value of a mathematical integer.
pub open spec fn fx_abs(a: int) -> int {
    if a >= 0 {
        a
    } else {
        -a
    }
}

/// Division of `a` by a positive `d`, rounding toward zero (the rounding the
/// executable code below produces).
pub open spec fn fx_div(a: int, d: int) -> int
    recommends
        d > 0,
{
    if a >= 0 {
        a / d
    } else {
        -((-a) / d)
    }
}

/// The fixed-point product of `a` and `b`: the full integer product, scaled
/// back down by [`FX_ONE`] and rounded toward zero.
pub open spec fn fx_mul(a: int, b: int) -> int {
    fx_div(a * b, FX_ONE as int)
}

/// Magnitude of `a` as a `u128`, total over all of `i64`.
fn abs_u128(a: i64) -> (r: u128)
    ensures
        r == fx_abs(a as int),
{
    if a < 0 {
        (-(a as i128)) as u128
    } else {
        a as u128
    }
}

/// Fixed-point multiplication. The precondition is exactly "the scaled
/// product fits in an `i64`".
pub fn mul_fx(a: i64, b: i64) -> (r: i64)
    requires
        fx_abs((a as int) * (b as int)) <= (i64::MAX as int) * (FX_ONE as int),
    ensures
        r == fx_mul(a as int, b as int),
{
    let neg: bool = (a < 0) != (b < 0);
    let aa: u128 = abs_u128(a);
    let bb: u128 = abs_u128(b);
    proof {
        assert(aa * bb == fx_abs((a as int) * (b as int))) by (nonlinear_arith)
            requires
                aa == fx_abs(a as int),
                bb == fx_abs(b as int),
        ;
        assert(aa * bb <= (i64::MAX as int) * (FX_ONE as int));
    }
    let p: u128 = aa * bb;
    let q: u128 = p / (FX_ONE as u128);
    proof {
        vstd::arithmetic::div_mod::lemma_fundamental_div_mod(p as int, FX_ONE as int);
        assert(q <= i64::MAX as int) by (nonlinear_arith)
            requires
                (p as int) == (FX_ONE as int) * ((p as int) / (FX_ONE as int)) + (p as int) % (
                FX_ONE as int),
                q == (p as int) / (FX_ONE as int),
                0 <= (p as int) % (FX_ONE as int),
                (p as int) <= (i64::MAX as int) * (FX_ONE as int),
        ;
    }
    if neg {
        proof {
            if (a as int) * (b as int) > 0 {
                assert((a < 0) == (b < 0)) by (nonlinear_arith)
                    requires
                        (a as int) * (b as int) > 0,
                ;
            }
            if (a as int) * (b as int) == 0 {
                assert(q == 0);
            }
        }
        -(q as i64)
    } else {
        proof {
            if (a as int) * (b as int) < 0 {
                assert((a < 0) != (b < 0)) by (nonlinear_arith)
                    requires
                        (a as int) * (b as int) < 0,
                ;
            }
        }
        q as i64
    }
}

/// Fixed-point (truncating) division by a positive divisor.
pub fn div_fx(a: i64, d: i64) -> (r: i64)
    requires
        i64::MIN < a,
        0 < d,
    ensures
        r == fx_div(a as int, d as int),
{
    let aa: u128 = abs_u128(a);
    let q: u128 = aa / (d as u128);
    proof {
        vstd::arithmetic::div_mod::lemma_fundamental_div_mod(aa as int, d as int);
        assert(q <= aa) by (nonlinear_arith)
            requires
                (aa as int) == (d as int) * ((aa as int) / (d as int)) + (aa as int) % (d as int),
                q == (aa as int) / (d as int),
                0 <= (aa as int) % (d as int),
                1 <= (d as int),
                0 <= q as int,
        ;
    }
    if a < 0 {
        -(q as i64)
    } else {
        q as i64
    }
}

/// The unique representative of `x` modulo `span` inside `[lo, lo + span)`:
/// what repeatedly stepping by `span` back onto the band produces.
pub open spec fn wrap_spec(x: int, lo: int, span: int) -> int
    recommends
        span > 0,
    decreases
            (if x >= lo + span {
                x - lo
            } else if x < lo {
                lo + span - x
            } else {
                0
            }),
        when span > 0
{
    if x >= lo + span {
        wrap_spec(x - span, lo, span)
    } else if x < lo {
        wrap_spec(x + span, lo, span)
    } else {
        x
    }
}

/// Wrapping always lands inside the band: whatever the start, the
/// representative lies in `[lo, lo + span)`.
pub proof fn lemma_wrap_spec_in_range(x: int, lo: int, span: int)
    requires
        span > 0,
    ensures
        lo <= wrap_spec(x, lo, span) < lo + span,
    decreases
            (if x >= lo + span {
                x - lo
            } else if x < lo {
                lo + span - x
            } else {
                0
            }),
{
    if x >= lo + span {
        lemma_wrap_spec_in_range(x - span, lo, span);
    } else if x < lo {
        lemma_wrap_spec_in_range(x + span, lo, span);
    }
}

/// Wraps `x0` into the half-open band `[lo, lo + span)` by whole steps of
/// `span`, as a sprite leaving one screen edge re-enters at the other.
pub fn wrap_fx(x0: i64, lo: i64, span: i64) -> (r: i64)
    requires
        0 < span <= 0x2000_0000_0000_0000,
        -0x2000_0000_0000_0000 <= lo,
        lo + span <= 0x2000_0000_0000_0000,
        -0x2000_0000_0000_0000 <= x0 <= 0x2000_0000_0000_0000,
    ensures
        r == wrap_spec(x0 as int, lo as int, span as int),
        lo <= r < lo + span,
{
    let mut x: i64 = x0;
    while x >= lo + span
        invariant
            0 < span <= 0x2000_0000_0000_0000,
            -0x2000_0000_0000_0000 <= lo,
            lo + span <= 0x2000_0000_0000_0000,
            -0x2000_0000_0000_0000 <= x <= 0x2000_0000_0000_0000,
            wrap_spec(x as int, lo as int, span as int) == wrap_spec(
                x0 as int,
                lo as int,
                span as int,
            ),
        decreases x - lo,
    {
        x = x - span;
    }
    while x < lo
        invariant
            0 < span <= 0x2000_0000_0000_0000,
            -0x2000_0000_0000_0000 <= lo,
            lo + span <= 0x2000_0000_0000_0000,
            -0x4000_0000_0000_0000 <= x,
            x < lo + span,
            wrap_spec(x as int, lo as int, span as int) == wrap_spec(
                x0 as int,
                lo as int,
                span as int,
            ),
        decreases lo + span - x,
    {
        x = x + span;
    }
    x
}

/// Scaling by one is the identity: multiplying by the fixed-point unit
/// neither rounds nor rescales.
pub proof fn lemma_fx_mul_one(a: int)
    ensures
        fx_mul(a, FX_ONE as int) == a,
{
    if a >= 0 {
        assert(a * (FX_ONE as int) / (FX_ONE as int) == a) by (nonlinear_arith);
    } else {
        assert(-(a * (FX_ONE as int)) == (-a) * (FX_ONE as int)) by (nonlinear_arith);
        assert((-a) * (FX_ONE as int) / (FX_ONE as int) == -a) by (nonlinear_arith);
    }
}

/// A fixed-point product with a factor of magnitude at most one cannot grow
/// the other factor's magnitude.
pub proof fn lemma_fx_mul_mag(a: int, b: int)
    requires
        fx_abs(b) <= FX_ONE as int,
    ensures
        fx_abs(fx_mul(a, b)) <= fx_abs(a),
{
    lemma_fx_div_mag(a * b, FX_ONE as int);
    assert(fx_abs(a * b) <= fx_abs(a) * (FX_ONE as int)) by (nonlinear_arith)
        requires
            fx_abs(b) <= FX_ONE as int,
    ;
    assert(fx_abs(a * b) / (FX_ONE as int) <= fx_abs(a)) by (nonlinear_arith)
        requires
            fx_abs(a * b) <= fx_abs(a) * (FX_ONE as int),
            0 <= fx_abs(a * b),
            0 <= fx_abs(a),
    ;
}

/// The magnitude of a truncating quotient is the quotient of the magnitude.
pub proof fn lemma_fx_div_mag(a: int, d: int)
    requires
        d > 0,
    ensures
        fx_abs(fx_div(a, d)) == fx_abs(a) / d,
{
    if a >= 0 {
        assert(a / d >= 0) by (nonlinear_arith)
            requires
                a >= 0,
                d > 0,
        ;
    } else {
        assert((-a) / d >= 0) by (nonlinear_arith)
            requires
                -a >= 0,
                d > 0,
        ;
    }
}

/// A product bound transfers through the fixed-point scaling: if the raw
/// product is at most `m * FX_ONE`, the scaled product is at most `m`.
pub proof fn lemma_fx_mul_le(a: int, b: int, m: int)
    requires
        fx_abs(a * b) <= m * (FX_ONE as int),
        0 <= m,
    ensures
        fx_abs(fx_mul(a, b)) <= m,
{
    lemma_fx_div_mag(a * b, FX_ONE as int);
    assert(fx_abs(a * b) / (FX_ONE as int) <= m) by (nonlinear_arith)
        requires
            fx_abs(a * b) <= m * (FX_ONE as int),
            0 <= fx_abs(a * b),
            0 <= m,
    ;
}

} // verus!
