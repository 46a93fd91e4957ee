use vstd::arithmetic::div_mod::{lemma_div_is_ordered, lemma_div_multiples_vanish, lemma_div_nonincreasing, lemma_div_by_multiple};
use vstd::prelude::*;

verus! {

/// Number of fixed-point units in one grid cell. Every continuous
/// coordinate, angle and distance in the engine is an `i64` holding a
/// multiple of `1 / FP_ONE`, so sub-cell positions and radian angles can
/// be carried without floating point.
pub const FP_ONE: i64 = 65536;

/// An eighth of a turn (pi / 4) in fixed-point radians. The other angle
/// constants are exact multiples of it, so the half-wave and wrapping
/// arithmetic below stays exact.
pub const QUARTER_PI_FP: i64 = 51472;

/// A quarter turn (pi / 2) in fixed-point radians.
pub const HALF_PI_FP: i64 = 2 * QUARTER_PI_FP;

/// Half a turn (pi) in fixed-point radians.
pub const PI_FP: i64 = 2 * HALF_PI_FP;

/// A full turn (2 * pi) in fixed-point radians.
pub const TAU_FP: i64 = 4 * HALF_PI_FP;

/// Absolute value.
pub open spec fn abs_i(a: int) -> int {
    if a < 0 {
        -a
    } else {
        a
    }
}

/// Truncating (round-toward-zero) division: the meaning of `/` on
/// `i64`, stated over magnitudes.
pub open spec fn div_tr(a: int, b: int) -> int {
    let q = abs_i(a) / abs_i(b);
    if (a < 0) != (b < 0) {
        -q
    } else {
        q
    }
}

/// Truncating remainder: the meaning of `%` on `i64`.
pub open spec fn mod_tr(a: int, b: int) -> int {
    if a >= 0 {
        a % b
    } else {
        -((-a) % b)
    }
}

/// An angle reduced to one full turn: the representative of `a` in
/// `[0, TAU_FP)`.
pub open spec fn wrap_angle_spec(a: int) -> int {
    if mod_tr(a, TAU_FP as int) >= 0 {
        mod_tr(a, TAU_FP as int)
    } else {
        mod_tr(a, TAU_FP as int) + TAU_FP
    }
}

/// Reduces an arbitrary fixed-point angle into `[0, TAU_FP)`.
pub fn wrap_angle(a: i64) -> (r: i64)
    requires
        a > i64::MIN,
    ensures
        r == wrap_angle_spec(a as int),
        0 <= r < TAU_FP,
{
    let m = a % TAU_FP;
    if m < 0 {
        m + TAU_FP
    } else {
        m
    }
}

/// A product of bounded factors is bounded by the product of the
/// bounds.
pub proof fn lemma_mul_abs_bound(a: int, b: int, ba: int, bb: int)
    requires
        -ba <= a <= ba,
        -bb <= b <= bb,
    ensures
        -(ba * bb) <= a * b <= ba * bb,
{
    assert(-(ba * bb) <= a * b <= ba * bb) by (nonlinear_arith)
        requires
            -ba <= a <= ba,
            -bb <= b <= bb,
    ;
}

/// A quotient is bounded by any bound on the dividend divided by the
/// (positive) divisor.
pub proof fn lemma_div_tr_bound(a: int, b: int, c: int)
    requires
        b > 0,
        0 <= c,
        -(c * b) <= a <= c * b,
    ensures
        -c <= div_tr(a, b) <= c,
{
    lemma_div_is_ordered(abs_i(a), c * b, b);
    lemma_div_by_multiple(c, b);
    lemma_div_is_ordered(0, abs_i(a), b);
}

/// Truncating division with the signs handled explicitly, so that its
/// contract holds for every sign combination of the operands.
pub fn div_fp(a: i64, b: i64) -> (r: i64)
    requires
        b != 0,
        a > i64::MIN,
        b > i64::MIN,
    ensures
        r == div_tr(a as int, b as int),
        abs_i(r as int) <= abs_i(a as int),
{
    let an = if a < 0 {
        -a
    } else {
        a
    };
    let bn = if b < 0 {
        -b
    } else {
        b
    };
    let q = an / bn;
    proof {
        lemma_div_is_ordered(0, an as int, bn as int);
        lemma_div_nonincreasing(an as int, bn as int);
    }
    if (a < 0) != (b < 0) {
        -q
    } else {
        q
    }
}

/// Rational sine approximation on the first half wave, scaled by
/// `FP_ONE`: for `x` in `[0, PI_FP]` this is Bhaskara's
/// `16 x (pi - x) / (5 pi^2 - 4 x (pi - x))`, which is exact at `0`,
/// `pi / 2` and `pi` and within a fraction of a percent in between.
pub open spec fn sin_half_spec(x: int) -> int {
    16 * x * (PI_FP - x) * FP_ONE / (5 * PI_FP * PI_FP - 4 * x * (PI_FP - x))
}

/// Sine over one full turn, scaled by `FP_ONE`: the second half wave is
/// the mirrored first one.
pub open spec fn sin_fp_spec(a: int) -> int {
    if a <= PI_FP {
        sin_half_spec(a)
    } else {
        -sin_half_spec(a - PI_FP)
    }
}

/// Cosine over one full turn, scaled by `FP_ONE`: sine a quarter turn
/// ahead.
pub open spec fn cos_fp_spec(a: int) -> int {
    sin_fp_spec(wrap_angle_spec(a + HALF_PI_FP))
}

proof fn lemma_sin_half_bounds(x: int)
    requires
        0 <= x <= PI_FP,
    ensures
        0 <= sin_half_spec(x) <= FP_ONE,
        x == 0 ==> sin_half_spec(x) == 0,
        x == PI_FP ==> sin_half_spec(x) == 0,
{
    let num = 16 * x * (PI_FP - x) * FP_ONE;
    let den = 5 * PI_FP * PI_FP - 4 * x * (PI_FP - x);
    assert(sin_half_spec(x) == num / den);
    assert(num >= 0 && 0 < den && num <= den * FP_ONE && FP_ONE * den == den * FP_ONE && (x == 0
        ==> num == 0) && (x == PI_FP ==> num == 0)) by (nonlinear_arith)
        requires
            0 <= x <= PI_FP,
            num == 16 * x * (PI_FP - x) * FP_ONE,
            den == 5 * PI_FP * PI_FP - 4 * x * (PI_FP - x),
            PI_FP == 205888,
            FP_ONE == 65536,
    ;
    lemma_div_is_ordered(0, num, den);
    lemma_div_is_ordered(num, FP_ONE * den, den);
    lemma_div_multiples_vanish(FP_ONE as int, den);
    if x == 0 || x == PI_FP {
        assert(num / den == 0);
    }
}

/// Range and sign of the sine approximation over one full turn.
pub proof fn lemma_sin_fp_spec_bounds(a: int)
    requires
        0 <= a <= TAU_FP,
    ensures
        -FP_ONE <= sin_fp_spec(a) <= FP_ONE,
        0 <= a <= PI_FP ==> sin_fp_spec(a) >= 0,
        PI_FP <= a ==> sin_fp_spec(a) <= 0,
{
    if a <= PI_FP {
        lemma_sin_half_bounds(a);
    } else {
        lemma_sin_half_bounds(a - PI_FP);
    }
}

/// Sine of an angle already reduced to the first half wave.
fn sin_half(x: i64) -> (r: i64)
    requires
        0 <= x <= PI_FP,
    ensures
        r == sin_half_spec(x as int),
        0 <= r <= FP_ONE,
        x == 0 ==> r == 0,
        x == PI_FP ==> r == 0,
{
    proof {
        lemma_sin_half_bounds(x as int);
        assert(0 <= x * (PI_FP - x) && 4 * (x * (PI_FP - x)) <= PI_FP * PI_FP) by (nonlinear_arith)
            requires
                0 <= x <= PI_FP,
        ;
    }
    let t = x * (PI_FP - x);
    let num = 16 * t * FP_ONE;
    let den = 5 * PI_FP * PI_FP - 4 * t;
    proof {
        assert(num == 16 * (x as int) * (PI_FP - x as int) * FP_ONE && den == 5 * PI_FP * PI_FP - 4
            * (x as int) * (PI_FP - x as int)) by (nonlinear_arith)
            requires
                t == (x as int) * (PI_FP - x as int),
                num == 16 * t * FP_ONE,
                den == 5 * PI_FP * PI_FP - 4 * t,
        ;
    }
    num / den
}

/// Sine of a wrapped fixed-point angle, scaled by `FP_ONE`.
pub fn sin_fp(a: i64) -> (r: i64)
    requires
        0 <= a <= TAU_FP,
    ensures
        r == sin_fp_spec(a as int),
        -FP_ONE <= r <= FP_ONE,
        0 <= a <= PI_FP ==> r >= 0,
        PI_FP <= a ==> r <= 0,
{
    if a <= PI_FP {
        sin_half(a)
    } else {
        proof {
            lemma_sin_half_bounds(a - PI_FP);
        }
        -sin_half(a - PI_FP)
    }
}

/// Cosine of a wrapped fixed-point angle, scaled by `FP_ONE`.
pub fn cos_fp(a: i64) -> (r: i64)
    requires
        0 <= a <= TAU_FP,
    ensures
        r == cos_fp_spec(a as int),
        -FP_ONE <= r <= FP_ONE,
{
    let b = wrap_angle(a + HALF_PI_FP);
    sin_fp(b)
}

/// Correction weight of the first-octant arctangent approximation,
/// 0.273 scaled by `FP_ONE`.
pub const ATAN_ADJ: i64 = 17891;

/// First-octant arctangent approximation, scaled by `FP_ONE`: for a
/// slope `z` in `[0, FP_ONE]` this is `z * (pi/4 + 0.273 * (1 - z))`,
/// exact at `0` and `1`.
pub open spec fn atan_unit_spec(z: int) -> int {
    z * (QUARTER_PI_FP + ATAN_ADJ * (FP_ONE - z) / (FP_ONE as int)) / (FP_ONE as int)
}

/// Arctangent of a slope in the first octant.
fn atan_unit(z: i64) -> (r: i64)
    requires
        0 <= z <= FP_ONE,
    ensures
        r == atan_unit_spec(z as int),
        0 <= r <= QUARTER_PI_FP + ATAN_ADJ,
{
    let adj = ATAN_ADJ * (FP_ONE - z) / FP_ONE;
    let inner = QUARTER_PI_FP + adj;
    proof {
        assert(0 <= ATAN_ADJ * (FP_ONE - z as int) <= ATAN_ADJ * FP_ONE) by (nonlinear_arith)
            requires
                0 <= z <= FP_ONE,
        ;
        lemma_div_is_ordered(0, ATAN_ADJ * (FP_ONE - z as int), FP_ONE as int);
        lemma_div_is_ordered(ATAN_ADJ * (FP_ONE - z as int), ATAN_ADJ * FP_ONE, FP_ONE as int);
        assert(ATAN_ADJ * FP_ONE == FP_ONE * (ATAN_ADJ as int)) by (nonlinear_arith);
        lemma_div_multiples_vanish(ATAN_ADJ as int, FP_ONE as int);
        assert(0 <= z as int * inner <= FP_ONE * inner) by (nonlinear_arith)
            requires
                0 <= z <= FP_ONE,
                0 < inner,
        ;
        lemma_div_is_ordered(0, z as int * inner, FP_ONE as int);
        lemma_div_is_ordered(z as int * inner, FP_ONE * (inner as int), FP_ONE as int);
        lemma_div_multiples_vanish(inner as int, FP_ONE as int);
    }
    z * inner / FP_ONE
}

/// Four-quadrant arctangent, scaled by `FP_ONE`: the angle of the vector
/// `(x, y)`, in `(-PI_FP, PI_FP]`, built from the first-octant
/// approximation by symmetry. The origin maps to `0`.
pub open spec fn atan2_fp_spec(y: int, x: int) -> int {
    let ax = if x >= 0 {
        x
    } else {
        -x
    };
    let ay = if y >= 0 {
        y
    } else {
        -y
    };
    if ax == 0 && ay == 0 {
        0
    } else {
        let base = if ax >= ay {
            atan_unit_spec(ay * FP_ONE / ax)
        } else {
            HALF_PI_FP - atan_unit_spec(ax * FP_ONE / ay)
        };
        if x >= 0 && y >= 0 {
            base
        } else if x < 0 && y >= 0 {
            PI_FP - base
        } else if x < 0 {
            -(PI_FP - base)
        } else {
            -base
        }
    }
}

/// Bound on the coordinates accepted by `atan2_fp`, comfortably above
/// anything a ray across the grid can reach.
pub const COORD_LIMIT: i64 = 1099511627776;

/// Four-quadrant arctangent of the vector `(x, y)`.
pub fn atan2_fp(y: i64, x: i64) -> (r: i64)
    requires
        -COORD_LIMIT <= x <= COORD_LIMIT,
        -COORD_LIMIT <= y <= COORD_LIMIT,
    ensures
        r == atan2_fp_spec(y as int, x as int),
        -PI_FP <= r <= PI_FP,
        y >= 0 ==> r >= 0,
        y < 0 ==> r <= 0,
{
    let ax = if x >= 0 {
        x
    } else {
        -x
    };
    let ay = if y >= 0 {
        y
    } else {
        -y
    };
    if ax == 0 && ay == 0 {
        return 0;
    }
    let base = if ax >= ay {
        proof {
            assert(0 <= ay * FP_ONE <= ax * FP_ONE) by (nonlinear_arith)
                requires
                    0 <= ay <= ax,
                    FP_ONE == 65536,
            ;
            lemma_div_is_ordered(0, ay * FP_ONE, ax as int);
            lemma_div_is_ordered(ay * FP_ONE, ax * FP_ONE, ax as int);
            assert(ax * FP_ONE == FP_ONE * (ax as int)) by (nonlinear_arith);
            lemma_div_multiples_vanish(FP_ONE as int, ax as int);
        }
        atan_unit(ay * FP_ONE / ax)
    } else {
        proof {
            assert(0 <= ax * FP_ONE <= ay * FP_ONE) by (nonlinear_arith)
                requires
                    0 <= ax <= ay,
                    FP_ONE == 65536,
            ;
            lemma_div_is_ordered(0, ax * FP_ONE, ay as int);
            lemma_div_is_ordered(ax * FP_ONE, ay * FP_ONE, ay as int);
            assert(ay * FP_ONE == FP_ONE * (ay as int)) by (nonlinear_arith);
            lemma_div_multiples_vanish(FP_ONE as int, ay as int);
        }
        HALF_PI_FP - atan_unit(ax * FP_ONE / ay)
    };
    if x >= 0 && y >= 0 {
        base
    } else if x < 0 && y >= 0 {
        PI_FP - base
    } else if x < 0 {
        -(PI_FP - base)
    } else {
        -base
    }
}

/// The integer square root, by strengthened recursion: the largest `r`
/// with `r * r <= n`.
pub open spec fn sqrt_floor(n: nat) -> nat
    decreases n,
{
    if n == 0 {
        0
    } else {
        let r = sqrt_floor((n - 1) as nat);
        if (r + 1) * (r + 1) <= n {
            r + 1
        } else {
            r
        }
    }
}

pub proof fn lemma_sqrt_floor_bounds(n: nat)
    ensures
        sqrt_floor(n) * sqrt_floor(n) <= n,
        (sqrt_floor(n) + 1) * (sqrt_floor(n) + 1) > n,
    decreases n,
{
    if n > 0 {
        lemma_sqrt_floor_bounds((n - 1) as nat);
        let r = sqrt_floor((n - 1) as nat);
        if (r + 1) * (r + 1) <= n {
            assert(sqrt_floor(n) == r + 1);
            assert((r + 2) * (r + 2) > n) by (nonlinear_arith)
                requires
                    (r + 1) * (r + 1) > n - 1,
                    (r + 1) * (r + 1) <= n,
            ;
        } else {
            assert(sqrt_floor(n) == r);
        }
    } else {
        assert(sqrt_floor(n) == 0);
        assert((sqrt_floor(n) + 1) * (sqrt_floor(n) + 1) > n) by (nonlinear_arith)
            requires
                n == 0,
                sqrt_floor(n) == 0,
        ;
    }
}

pub proof fn lemma_sqrt_floor_unique(n: nat, r: nat)
    requires
        r * r <= n,
        (r + 1) * (r + 1) > n,
    ensures
        r == sqrt_floor(n),
{
    lemma_sqrt_floor_bounds(n);
    let s = sqrt_floor(n);
    assert(r == s) by (nonlinear_arith)
        requires
            r * r <= n,
            (r + 1) * (r + 1) > n,
            s * s <= n,
            (s + 1) * (s + 1) > n,
    ;
}

/// Integer square root by bisection.
pub fn isqrt(n: i64) -> (r: i64)
    requires
        n >= 0,
    ensures
        r >= 0,
        r == sqrt_floor(n as nat),
{
    let mut lo: i64 = 0;
    let mut hi: i64 = if n < 3037000499 {
        n
    } else {
        3037000499
    };
    proof {
        assert((hi as int + 1) * (hi as int + 1) > n) by (nonlinear_arith)
            requires
                0 <= n <= i64::MAX,
                hi == if n < 3037000499 {
                    n as int
                } else {
                    3037000499
                },
        ;
    }
    while lo < hi
        invariant
            0 <= lo <= hi <= 3037000499,
            lo * lo <= n,
            (hi + 1) * (hi + 1) > n,
        decreases hi - lo,
    {
        let mid = lo + (hi - lo + 1) / 2;
        proof {
            assert(mid * mid <= 3037000499i64 * 3037000499) by (nonlinear_arith)
                requires
                    0 <= mid <= 3037000499,
            ;
        }
        if mid * mid <= n {
            lo = mid;
        } else {
            hi = mid - 1;
        }
    }
    proof {
        lemma_sqrt_floor_unique(n as nat, lo as nat);
    }
    lo
}

} // verus!
