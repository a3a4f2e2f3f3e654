//! Fixed-point scalars.
//!
//! A scalar is an `i64` counting millionths: the value `1.0` of the informal
//! model is `SCALE == 1_000_000`. Every scalar the engine works with is kept
//! inside `[-FX_MAX, FX_MAX]`; the arithmetic below saturates at that bound,
//! so no operation can overflow.

use vstd::prelude::*;

verus! {

/// One whole unit, in millionths.
pub const SCALE: i64 = 1_000_000;

/// Largest magnitude a scalar may take (one million whole units).
pub const FX_MAX: i64 = 1_000_000_000_000;

/// A scalar that the fixed-point arithmetic accepts.
pub open spec fn fx_bounded(v: i64) -> bool {
    -FX_MAX <= v <= FX_MAX
}

/// Saturation of a mathematical integer into the scalar domain.
pub open spec fn fx_clip(v: int) -> int {
    if v > FX_MAX as int {
        FX_MAX as int
    } else if v < -(FX_MAX as int) {
        -(FX_MAX as int)
    } else {
        v
    }
}

/// Division truncating towards zero, the rounding the executable
/// sign-magnitude arithmetic performs. `d` must be positive.
pub open spec fn tdiv(v: int, d: int) -> int {
    if v >= 0 {
        v / d
    } else {
        -((-v) / d)
    }
}

/// Product of two scalars, rescaled back into millionths and saturated.
pub open spec fn fx_mul_spec(a: i64, b: i64) -> int {
    fx_clip(tdiv(a as int * b as int, SCALE as int))
}

/// Sum of two scalars, saturated.
pub open spec fn fx_add_spec(a: i64, b: i64) -> int {
    fx_clip(a as int + b as int)
}

/// Saturating addition of bounded scalars.
pub fn fx_add(a: i64, b: i64) -> (r: i64)
    requires
        fx_bounded(a),
        fx_bounded(b),
    ensures
        r as int == fx_add_spec(a, b),
        fx_bounded(r),
{
    let s = a + b;
    if s > FX_MAX {
        FX_MAX
    } else if s < -FX_MAX {
        -FX_MAX
    } else {
        s
    }
}

/// Largest magnitude a rescaled product of two scalars can take:
/// `FX_MAX * FX_MAX / SCALE`.
pub const TERM_MAX: i64 = 1_000_000_000_000_000_000;

/// Product of two scalars rescaled into millionths, truncating towards
/// zero and not yet saturated; one term of a neuron's weighted sum.
pub fn mul_scaled(a: i64, b: i64) -> (r: i64)
    requires
        fx_bounded(a),
        fx_bounded(b),
    ensures
        r as int == tdiv(a as int * b as int, SCALE as int),
        -TERM_MAX <= r <= TERM_MAX,
{
    let neg = (a < 0) != (b < 0);
    let ma: u64 = if a < 0 {
        (-a) as u64
    } else {
        a as u64
    };
    let mb: u64 = if b < 0 {
        (-b) as u64
    } else {
        b as u64
    };
    assert(ma <= FX_MAX as u64 && mb <= FX_MAX as u64);
    assert(ma as int * mb as int <= FX_MAX as int * FX_MAX as int) by (nonlinear_arith)
        requires
            0 <= ma <= FX_MAX as int,
            0 <= mb <= FX_MAX as int,
    ;
    let p: u128 = (ma as u128) * (mb as u128);
    let q: u128 = p / (SCALE as u128);
    assert(q as int == (ma as int * mb as int) / (SCALE as int)) by {
        assert(p as int == ma as int * mb as int);
    }
    assert(q <= TERM_MAX as u128) by (nonlinear_arith)
        requires
            q as int == p as int / (SCALE as int),
            0 <= p as int <= FX_MAX as int * FX_MAX as int,
    ;
    let m: i64 = q as i64;
    proof {
        assert(ma as int * mb as int == if a as int * b as int >= 0 {
            a as int * b as int
        } else {
            -(a as int * b as int)
        }) by (nonlinear_arith)
            requires
                ma == if a < 0 { -(a as int) } else { a as int },
                mb == if b < 0 { -(b as int) } else { b as int },
        ;
        assert((neg && (ma as int) * (mb as int) != 0) ==> (a as int) * (b as int) < 0) by (nonlinear_arith)
            requires
                neg == ((a < 0) != (b < 0)),
                ma == if a < 0 { -(a as int) } else { a as int },
                mb == if b < 0 { -(b as int) } else { b as int },
        ;
        assert(!neg ==> a as int * b as int >= 0) by (nonlinear_arith)
            requires
                neg == ((a < 0) != (b < 0)),
        ;
    }
    if neg {
        -m
    } else {
        m
    }
}

/// Saturating fixed-point multiplication of bounded scalars.
pub fn fx_mul(a: i64, b: i64) -> (r: i64)
    requires
        fx_bounded(a),
        fx_bounded(b),
    ensures
        r as int == fx_mul_spec(a, b),
        fx_bounded(r),
{
    let m = mul_scaled(a, b);
    if m > FX_MAX {
        FX_MAX
    } else if m < -FX_MAX {
        -FX_MAX
    } else {
        m
    }
}

/// Half a unit, in millionths.
pub const HALF_SCALE: i64 = 500_000;

/// A product of two at-most-one-unit scalars stays within one unit, and
/// saturation never fires on it.
pub proof fn lemma_fx_mul_small(a: i64, b: i64)
    requires
        -SCALE <= a <= SCALE,
        -SCALE <= b <= SCALE,
    ensures
        -SCALE as int <= fx_mul_spec(a, b) <= SCALE as int,
        fx_mul_spec(a, b) == tdiv(a as int * b as int, SCALE as int),
{
    assert(-(SCALE as int) * (SCALE as int) <= a as int * b as int <= (SCALE as int) * (
    SCALE as int)) by (nonlinear_arith)
        requires
            -(SCALE as int) <= a as int <= SCALE as int,
            -(SCALE as int) <= b as int <= SCALE as int,
    ;
    let p = a as int * b as int;
    if p >= 0 {
        vstd::arithmetic::div_mod::lemma_div_is_ordered(
            p,
            (SCALE as int) * (SCALE as int),
            SCALE as int,
        );
        vstd::arithmetic::div_mod::lemma_div_multiples_vanish(SCALE as int, SCALE as int);
        vstd::arithmetic::div_mod::lemma_div_pos_is_pos(p, SCALE as int);
    } else {
        vstd::arithmetic::div_mod::lemma_div_is_ordered(
            -p,
            (SCALE as int) * (SCALE as int),
            SCALE as int,
        );
        vstd::arithmetic::div_mod::lemma_div_multiples_vanish(SCALE as int, SCALE as int);
        vstd::arithmetic::div_mod::lemma_div_pos_is_pos(-p, SCALE as int);
    }
}

/// Copy a scalar vector.
pub fn copy_scalars(v: &Vec<i64>) -> (r: Vec<i64>)
    ensures
        r@ == v@,
{
    let mut r: Vec<i64> = Vec::new();
    let len = v.len();
    let mut i: usize = 0;
    while i < len
        invariant
            i <= len,
            len == v@.len(),
            r@ == v@.take(i as int),
        decreases len - i,
    {
        r.push(v[i]);
        proof {
            assert(r@ =~= v@.take(i + 1));
        }
        i = i + 1;
    }
    proof {
        assert(r@ =~= v@);
    }
    r
}

/// Rectifier: the negative half of the domain is floored to zero.
pub open spec fn relu_spec(v: int) -> int {
    if v < 0 {
        0
    } else {
        v
    }
}

/// Clamp into a closed interval; the engine's self-correcting bound for
/// speeds and steering outputs.
pub open spec fn clamp_spec(v: int, lo: int, hi: int) -> int {
    if v < lo {
        lo
    } else if v > hi {
        hi
    } else {
        v
    }
}

/// Clamp a scalar into `[lo, hi]`.
pub fn fx_clamp(v: i64, lo: i64, hi: i64) -> (r: i64)
    requires
        lo <= hi,
    ensures
        r as int == clamp_spec(v as int, lo as int, hi as int),
        lo <= r <= hi,
{
    if v < lo {
        lo
    } else if v > hi {
        hi
    } else {
        v
    }
}

} // verus!
