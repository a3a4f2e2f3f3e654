//! Integer geometry for the toroidal world.
//!
//! Angles are measured in *turn units*: `TURN == 1_000_000` units make one
//! full revolution, so a quarter turn is `250_000`. Sine and cosine are the
//! classical rational approximation on fixed-point values; the arc tangent
//! is the octant-folded rational approximation. Each executable function
//! returns exactly the value of its spec-level mirror.

use vstd::prelude::*;

use crate::fx::SCALE;

verus! {

/// Turn units in one full revolution.
pub const TURN: i64 = 1_000_000;

/// Turn units in half a revolution.
pub const HALF_TURN: i64 = 500_000;

/// Turn units in a quarter revolution.
pub const QUARTER_TURN: i64 = 250_000;

/// Floor of the square root: the unique `r` with `r * r <= n < (r+1)*(r+1)`.
pub open spec fn sqrt_floor(n: nat) -> nat
    decreases n,
{
    if n == 0 {
        0
    } else {
        let s = sqrt_floor((n - 1) as nat);
        if (s + 1) * (s + 1) <= n {
            s + 1
        } else {
            s
        }
    }
}

/// The defining property of `sqrt_floor`.
pub proof fn lemma_sqrt_floor(n: nat)
    ensures
        sqrt_floor(n) * sqrt_floor(n) <= n,
        n < (sqrt_floor(n) + 1) * (sqrt_floor(n) + 1),
    decreases n,
{
    if n > 0 {
        lemma_sqrt_floor((n - 1) as nat);
        let s = sqrt_floor((n - 1) as nat);
        if (s + 1) * (s + 1) <= n {
            assert(sqrt_floor(n) == s + 1);
            assert((s + 2) * (s + 2) > n) by (nonlinear_arith)
                requires
                    n >= 1,
                    (n - 1) < (s + 1) * (s + 1),
            ;
            assert((sqrt_floor(n) + 1) * (sqrt_floor(n) + 1) == (s + 2) * (s + 2))
                by (nonlinear_arith)
                requires
                    sqrt_floor(n) == s + 1,
            ;
            assert(n < (sqrt_floor(n) + 1) * (sqrt_floor(n) + 1));
            assert(sqrt_floor(n) * sqrt_floor(n) <= n) by (nonlinear_arith)
                requires
                    sqrt_floor(n) == s + 1,
                    (s + 1) * (s + 1) <= n,
            ;
        } else {
            assert(sqrt_floor(n) == s);
            assert(s * s <= n - 1 <= n);
            assert(n < (sqrt_floor(n) + 1) * (sqrt_floor(n) + 1)) by (nonlinear_arith)
                requires
                    sqrt_floor(n) == s,
                    n < (s + 1) * (s + 1),
            ;
            assert(sqrt_floor(n) * sqrt_floor(n) <= n) by (nonlinear_arith)
                requires
                    sqrt_floor(n) == s,
                    s * s <= n,
            ;
        }
    } else {
        assert(sqrt_floor(n) == 0);
        assert((sqrt_floor(n) + 1) * (sqrt_floor(n) + 1) == 1) by (nonlinear_arith)
            requires
                sqrt_floor(n) == 0,
        ;
    }
}

/// Integer square root by binary search: exactly the floor of the root.
pub fn isqrt(n: u64) -> (r: u64)
    ensures
        r as nat == sqrt_floor(n as nat),
        r as int * r as int <= n as int,
        (n as int) < (r as int + 1) * (r as int + 1),
{
    let mut lo: u64 = 0;
    let mut hi: u64 = if n < 0xFFFF_FFFF {
        n
    } else {
        0xFFFF_FFFF
    };
    proof {
        assert((hi as int + 1) * (hi as int + 1) > n as int) by (nonlinear_arith)
            requires
                hi == if n < 0xFFFF_FFFF { n as int } else { 0xFFFF_FFFF },
                n <= u64::MAX,
        ;
    }
    while lo < hi
        invariant
            lo <= hi <= 0xFFFF_FFFF,
            lo as int * lo as int <= n as int,
            (hi as int + 1) * (hi as int + 1) > n as int,
        decreases hi - lo,
    {
        let mid = lo + (hi - lo + 1) / 2;
        assert(lo < mid <= hi);
        proof {
            assert(mid as int * mid as int <= 0xFFFF_FFFFint * 0xFFFF_FFFFint)
                by (nonlinear_arith)
                requires
                    0 <= mid as int <= 0xFFFF_FFFFint,
            ;
        }
        let sq = mid * mid;
        if sq <= n {
            lo = mid;
        } else {
            hi = mid - 1;
        }
    }
    proof {
        lemma_sqrt_floor(n as nat);
        let s = sqrt_floor(n as nat);
        assert(lo as nat == s) by (nonlinear_arith)
            requires
                lo as int * lo as int <= n as int,
                (lo as int + 1) * (lo as int + 1) > n as int,
                s * s <= n as nat,
                (n as nat) < (s + 1) * (s + 1),
        ;
    }
    lo
}

/// The rational half-turn sine approximation on `[0, HALF_TURN]`, scaled to
/// millionths and capped at one unit.
pub open spec fn sin_half_spec(u: int) -> int {
    let w = u * (HALF_TURN - u);
    let q = (16 * w * (SCALE as int)) / (5 * (HALF_TURN as int) * (HALF_TURN as int) - 4 * w);
    if q > SCALE as int {
        SCALE as int
    } else {
        q
    }
}

/// Sine of an angle in turn units, scaled to millionths.
pub open spec fn sin_spec(a: int) -> int {
    if a <= HALF_TURN {
        sin_half_spec(a)
    } else {
        -sin_half_spec(a - HALF_TURN)
    }
}

/// Cosine of an angle in turn units: the sine a quarter turn later.
pub open spec fn cos_spec(a: int) -> int {
    sin_spec(if a + QUARTER_TURN >= TURN {
        a + QUARTER_TURN - TURN
    } else {
        a + QUARTER_TURN
    })
}

/// Sine on the first half turn, non-negative and at most one unit.
fn sin_half(u: i64) -> (r: i64)
    requires
        0 <= u <= HALF_TURN,
    ensures
        r as int == sin_half_spec(u as int),
        0 <= r <= SCALE,
{
    let uu = u as u64;
    proof {
        assert(0 <= uu as int * ((HALF_TURN as int) - uu as int) <= (HALF_TURN as int) * (
        HALF_TURN as int)) by (nonlinear_arith)
            requires
                0 <= uu as int <= HALF_TURN as int,
        ;
    }
    let w: u64 = uu * ((HALF_TURN as u64) - uu);
    proof {
        assert(16 * (w as int) * (SCALE as int) <= 16 * ((HALF_TURN as int) * (HALF_TURN as int))
            * (SCALE as int)) by (nonlinear_arith)
            requires
                0 <= w as int <= (HALF_TURN as int) * (HALF_TURN as int),
        ;
    }
    let num: u64 = 16 * w * (SCALE as u64);
    let den: u64 = 5 * (HALF_TURN as u64) * (HALF_TURN as u64) - 4 * w;
    let q = num / den;
    if q > SCALE as u64 {
        SCALE
    } else {
        q as i64
    }
}

/// Sine of an angle in turn units, in `[-SCALE, SCALE]`.
pub fn sin_turns(a: i64) -> (r: i64)
    requires
        0 <= a < TURN,
    ensures
        r as int == sin_spec(a as int),
        -SCALE <= r <= SCALE,
{
    if a <= HALF_TURN {
        sin_half(a)
    } else {
        let s = sin_half(a - HALF_TURN);
        -s
    }
}

/// Cosine of an angle in turn units, in `[-SCALE, SCALE]`.
pub fn cos_turns(a: i64) -> (r: i64)
    requires
        0 <= a < TURN,
    ensures
        r as int == cos_spec(a as int),
        -SCALE <= r <= SCALE,
{
    let b = if a + QUARTER_TURN >= TURN {
        a + QUARTER_TURN - TURN
    } else {
        a + QUARTER_TURN
    };
    sin_turns(b)
}

/// The rational arc-tangent approximation on one octant: for a slope in
/// millionths it yields an angle in turn units, capped at an eighth turn.
pub open spec fn atan_unit_spec(z: int) -> int {
    let inner = 125_000 + (43_448 * ((SCALE as int) - z)) / (SCALE as int);
    let t = (z * inner) / (SCALE as int);
    if t > 125_000 {
        125_000
    } else {
        t
    }
}

/// Arc tangent of `dy/dx` folded over all octants, in turn units in
/// `[0, TURN)`, measured counter-clockwise from the positive x axis.
pub open spec fn atan2_spec(dy: int, dx: int) -> int {
    if dx == 0 && dy == 0 {
        0
    } else {
        let ax = if dx < 0 {
            -dx
        } else {
            dx
        };
        let ay = if dy < 0 {
            -dy
        } else {
            dy
        };
        let t = if ax >= ay {
            atan_unit_spec((ay * (SCALE as int)) / ax)
        } else {
            QUARTER_TURN - atan_unit_spec((ax * (SCALE as int)) / ay)
        };
        if dx >= 0 && dy >= 0 {
            t
        } else if dx < 0 && dy >= 0 {
            (HALF_TURN as int) - t
        } else if dx < 0 {
            (HALF_TURN as int) + t
        } else if t == 0 {
            0
        } else {
            (TURN as int) - t
        }
    }
}

/// Arc tangent over one octant.
fn atan_unit(z: i64) -> (r: i64)
    requires
        0 <= z <= SCALE,
    ensures
        r as int == atan_unit_spec(z as int),
        0 <= r <= 125_000,
{
    let zu = z as u64;
    let inner: u64 = 125_000 + (43_448 * ((SCALE as u64) - zu)) / (SCALE as u64);
    proof {
        vstd::arithmetic::div_mod::lemma_div_is_ordered(
            43_448 * ((SCALE as int) - zu as int),
            43_448 * (SCALE as int),
            SCALE as int,
        );
        vstd::arithmetic::div_mod::lemma_div_multiples_vanish(43_448int, SCALE as int);
        assert((SCALE as int) * 43_448 == 43_448 * (SCALE as int));
        assert(inner as int <= 168_448);
        assert(zu as int * inner as int <= (SCALE as int) * 168_448) by (nonlinear_arith)
            requires
                0 <= zu as int <= SCALE as int,
                0 <= inner as int <= 168_448,
        ;
    }
    let t: u64 = (zu * inner) / (SCALE as u64);
    if t > 125_000 {
        125_000
    } else {
        t as i64
    }
}

/// Arc tangent of the vector `(dx, dy)`, in turn units in `[0, TURN)`.
pub fn atan2_turns(dy: i64, dx: i64) -> (r: i64)
    requires
        -SCALE <= dy <= SCALE,
        -SCALE <= dx <= SCALE,
    ensures
        r as int == atan2_spec(dy as int, dx as int),
        0 <= r < TURN,
{
    if dx == 0 && dy == 0 {
        return 0;
    }
    let ax: i64 = if dx < 0 {
        -dx
    } else {
        dx
    };
    let ay: i64 = if dy < 0 {
        -dy
    } else {
        dy
    };
    let t: i64 = if ax >= ay {
        proof {
            vstd::arithmetic::div_mod::lemma_div_is_ordered(
                ay as int * SCALE as int,
                ax as int * SCALE as int,
                ax as int,
            );
            assert((ay as int * SCALE as int) <= (ax as int * SCALE as int)) by (nonlinear_arith)
                requires
                    0 <= ay as int <= ax as int,
                    SCALE as int > 0,
            ;
            assert((ax as int * SCALE as int) / (ax as int) == SCALE as int) by {
                vstd::arithmetic::div_mod::lemma_div_multiples_vanish(SCALE as int, ax as int);
                assert(ax as int * SCALE as int == (ax as int) * (SCALE as int));
            }
        }
        let z = ((ay as u64) * (SCALE as u64)) / (ax as u64);
        atan_unit(z as i64)
    } else {
        proof {
            vstd::arithmetic::div_mod::lemma_div_is_ordered(
                ax as int * SCALE as int,
                ay as int * SCALE as int,
                ay as int,
            );
            assert((ax as int * SCALE as int) <= (ay as int * SCALE as int)) by (nonlinear_arith)
                requires
                    0 <= ax as int <= ay as int,
                    SCALE as int > 0,
            ;
            assert((ay as int * SCALE as int) / (ay as int) == SCALE as int) by {
                vstd::arithmetic::div_mod::lemma_div_multiples_vanish(SCALE as int, ay as int);
                assert(ay as int * SCALE as int == (ay as int) * (SCALE as int));
            }
        }
        let z = ((ax as u64) * (SCALE as u64)) / (ay as u64);
        QUARTER_TURN - atan_unit(z as i64)
    };
    if dx >= 0 && dy >= 0 {
        t
    } else if dx < 0 && dy >= 0 {
        HALF_TURN - t
    } else if dx < 0 {
        HALF_TURN + t
    } else if t == 0 {
        0
    } else {
        TURN - t
    }
}

/// Wrapping of a once-stepped coordinate back into `[0, bound)`.
pub open spec fn wrap_spec(p: int, bound: int) -> int {
    if p < 0 {
        p + bound
    } else if p >= bound {
        p - bound
    } else {
        p
    }
}

/// Wrap a coordinate that moved at most one world width, into `[0, bound)`.
pub fn wrap_once(p: i64, bound: i64) -> (r: i64)
    requires
        bound >= 1,
        -bound <= p < 2 * bound,
    ensures
        r as int == wrap_spec(p as int, bound as int),
        0 <= r < bound,
{
    if p < 0 {
        p + bound
    } else if p >= bound {
        p - bound
    } else {
        p
    }
}

} // verus!
