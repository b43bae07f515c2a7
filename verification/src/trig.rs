//! Fixed-point trigonometry on nano-radian angles.
//!
//! `sin_nano` and `cos_nano` evaluate a Taylor polynomial on a quarter circle
//! after quadrant reduction; `atan2_nano` reduces to a first-octant arctangent
//! polynomial through the reflection and half-angle identities.  Every
//! executable function returns exactly the value of its spec mirror, so the
//! whole position pipeline is a mathematical function of its inputs.

use vstd::prelude::*;

verus! {

use crate::num::{HALF_PI_NANO, PI_NANO, POLY_SCALE, SCALE, TAU_NANO};
use vstd::arithmetic::div_mod::{lemma_div_is_ordered, lemma_div_is_ordered_by_denominator,
    lemma_div_multiples_vanish, lemma_div_pos_is_pos};
use vstd::arithmetic::mul::{lemma_mul_inequality, lemma_mul_nonnegative, lemma_mul_upper_bound};

/// Taylor coefficients of sine at the `POLY_SCALE` scale: 1/3!, 1/5!, ... 1/13!.
pub const SIN_C3: i64 = 166_666_666_666;
pub const SIN_C5: i64 = 8_333_333_333;
pub const SIN_C7: i64 = 198_412_698;
pub const SIN_C9: i64 = 2_755_731;
pub const SIN_C11: i64 = 25_052;
pub const SIN_C13: i64 = 161;

/// Taylor coefficients of arctangent at the `POLY_SCALE` scale: 1/3, 1/5, ... 1/17.
pub const ATAN_C3: i64 = 333_333_333_333;
pub const ATAN_C5: i64 = 200_000_000_000;
pub const ATAN_C7: i64 = 142_857_142_857;
pub const ATAN_C9: i64 = 111_111_111_111;
pub const ATAN_C11: i64 = 90_909_090_909;
pub const ATAN_C13: i64 = 76_923_076_923;
pub const ATAN_C15: i64 = 66_666_666_666;
pub const ATAN_C17: i64 = 58_823_529_411;

/// pi/4 in nano-radians (half of `HALF_PI_NANO`, rounded down).
pub const QUARTER_PI_NANO: i64 = 785_398_163;

/// tan(pi/8) in nano fixed point: the octant boundary of the arctangent
/// argument reduction.
pub const ATAN_OCTANT_NANO: i64 = 414_213_562;

/// Largest value of `x * x / SCALE` for `x` up to `HALF_PI_NANO`.
pub const SIN_X2_BOUND: i64 = 2_467_401_100;

/// Largest value of `u * u / SCALE` for `u` up to `ATAN_OCTANT_NANO`.
pub const ATAN_U2_BOUND: i64 = 171_572_875;

/// Sine on the first quadrant, `0 <= x <= HALF_PI_NANO`, as an odd Taylor
/// polynomial evaluated by Horner's rule and clamped into `[0, SCALE]`.
pub open spec fn spec_sin_quarter(x: int) -> int {
    let x2 = x * x / (SCALE as int);
    let a11 = SIN_C11 - x2 * (SIN_C13 as int) / (SCALE as int);
    let a9 = SIN_C9 - x2 * a11 / (SCALE as int);
    let a7 = SIN_C7 - x2 * a9 / (SCALE as int);
    let a5 = SIN_C5 - x2 * a7 / (SCALE as int);
    let a3 = SIN_C3 - x2 * a5 / (SCALE as int);
    let q = POLY_SCALE - x2 * a3 / (SCALE as int);
    let raw = x * q / (POLY_SCALE as int);
    if raw < 0 {
        0
    } else if raw > SCALE {
        SCALE as int
    } else {
        raw
    }
}

/// Sine of an angle in `[0, TAU_NANO)` by quadrant reduction.
pub open spec fn spec_sin(x: int) -> int {
    if x <= HALF_PI_NANO {
        spec_sin_quarter(x)
    } else if x <= PI_NANO {
        spec_sin_quarter(PI_NANO - x)
    } else if x <= PI_NANO + HALF_PI_NANO {
        -spec_sin_quarter(x - PI_NANO)
    } else {
        -spec_sin_quarter(TAU_NANO - x)
    }
}

/// Cosine of an angle in `[0, TAU_NANO)`, as the sine shifted by a quarter
/// turn.
pub open spec fn spec_cos(x: int) -> int {
    let y = x + HALF_PI_NANO;
    spec_sin(if y >= TAU_NANO {
        y - TAU_NANO
    } else {
        y
    })
}

/// The product bound and sign facts needed at each Horner step.
proof fn lemma_muldiv_le(v: int, acc: int, vb: int, ab: int, d: int)
    requires
        0 <= v <= vb,
        0 <= acc <= ab,
        0 < d,
    ensures
        0 <= v * acc,
        v * acc <= vb * ab,
        0 <= v * acc / d,
        v * acc / d <= vb * ab / d,
{
    lemma_mul_nonnegative(v, acc);
    lemma_mul_upper_bound(v, vb, acc, ab);
    lemma_div_pos_is_pos(v * acc, d);
    lemma_div_is_ordered(v * acc, vb * ab, d);
}

/// For nonnegative `a <= b` and positive `d`: `a * SCALE / b <= SCALE`.
proof fn lemma_ratio_at_most_one(a: int, b: int)
    requires
        0 <= a <= b,
        0 < b,
    ensures
        0 <= a * (SCALE as int) / b <= SCALE,
{
    lemma_mul_nonnegative(a, SCALE as int);
    lemma_div_pos_is_pos(a * (SCALE as int), b);
    lemma_mul_inequality(a, b, SCALE as int);
    lemma_div_is_ordered(a * (SCALE as int), b * (SCALE as int), b);
    lemma_div_multiples_vanish(SCALE as int, b);
}

/// Quarter-circle sine; see [`spec_sin_quarter`].
fn sin_quarter(x: i64) -> (r: i64)
    requires
        0 <= x <= HALF_PI_NANO,
    ensures
        r == spec_sin_quarter(x as int),
        0 <= r <= SCALE,
{
    let s: u128 = SCALE as u128;
    let xu: u128 = x as u128;
    proof {
        lemma_muldiv_le(x as int, x as int, HALF_PI_NANO as int, HALF_PI_NANO as int,
            SCALE as int);
        assert((HALF_PI_NANO as int) * (HALF_PI_NANO as int) / (SCALE as int)
            == SIN_X2_BOUND as int);
    }
    let x2: u128 = xu * xu / s;
    proof {
        lemma_muldiv_le(x2 as int, SIN_C13 as int, SIN_X2_BOUND as int, SIN_C13 as int,
            SCALE as int);
        assert((SIN_X2_BOUND as int) * (SIN_C13 as int) / (SCALE as int) <= SIN_C11 as int);
    }
    let a11: u128 = (SIN_C11 as u128) - x2 * (SIN_C13 as u128) / s;
    proof {
        lemma_muldiv_le(x2 as int, a11 as int, SIN_X2_BOUND as int, SIN_C11 as int,
            SCALE as int);
        assert((SIN_X2_BOUND as int) * (SIN_C11 as int) / (SCALE as int) <= SIN_C9 as int);
    }
    let a9: u128 = (SIN_C9 as u128) - x2 * a11 / s;
    proof {
        lemma_muldiv_le(x2 as int, a9 as int, SIN_X2_BOUND as int, SIN_C9 as int, SCALE as int);
        assert((SIN_X2_BOUND as int) * (SIN_C9 as int) / (SCALE as int) <= SIN_C7 as int);
    }
    let a7: u128 = (SIN_C7 as u128) - x2 * a9 / s;
    proof {
        lemma_muldiv_le(x2 as int, a7 as int, SIN_X2_BOUND as int, SIN_C7 as int, SCALE as int);
        assert((SIN_X2_BOUND as int) * (SIN_C7 as int) / (SCALE as int) <= SIN_C5 as int);
    }
    let a5: u128 = (SIN_C5 as u128) - x2 * a7 / s;
    proof {
        lemma_muldiv_le(x2 as int, a5 as int, SIN_X2_BOUND as int, SIN_C5 as int, SCALE as int);
        assert((SIN_X2_BOUND as int) * (SIN_C5 as int) / (SCALE as int) <= SIN_C3 as int);
    }
    let a3: u128 = (SIN_C3 as u128) - x2 * a5 / s;
    proof {
        lemma_muldiv_le(x2 as int, a3 as int, SIN_X2_BOUND as int, SIN_C3 as int, SCALE as int);
        assert((SIN_X2_BOUND as int) * (SIN_C3 as int) / (SCALE as int) <= POLY_SCALE as int);
    }
    let q: u128 = (POLY_SCALE as u128) - x2 * a3 / s;
    proof {
        lemma_muldiv_le(x as int, q as int, HALF_PI_NANO as int, POLY_SCALE as int,
            POLY_SCALE as int);
    }
    let raw: u128 = xu * q / (POLY_SCALE as u128);
    if raw > SCALE as u128 {
        SCALE
    } else {
        raw as i64
    }
}

/// Sine on the canonical angle range; see [`spec_sin`].
pub fn sin_nano(x: i64) -> (r: i64)
    requires
        0 <= x < TAU_NANO,
    ensures
        r == spec_sin(x as int),
        -SCALE <= r <= SCALE,
{
    if x <= HALF_PI_NANO {
        sin_quarter(x)
    } else if x <= PI_NANO {
        sin_quarter(PI_NANO - x)
    } else if x <= PI_NANO + HALF_PI_NANO {
        -sin_quarter(x - PI_NANO)
    } else {
        -sin_quarter(TAU_NANO - x)
    }
}

/// Cosine on the canonical angle range; see [`spec_cos`].
pub fn cos_nano(x: i64) -> (r: i64)
    requires
        0 <= x < TAU_NANO,
    ensures
        r == spec_cos(x as int),
        -SCALE <= r <= SCALE,
{
    let y: i64 = x + HALF_PI_NANO;
    if y >= TAU_NANO {
        sin_nano(y - TAU_NANO)
    } else {
        sin_nano(y)
    }
}

/// First-octant arctangent, `0 <= u <= ATAN_OCTANT_NANO`, as an odd Taylor
/// polynomial clamped into `[0, QUARTER_PI_NANO]`.
pub open spec fn spec_atan_octant(u: int) -> int {
    let u2 = u * u / (SCALE as int);
    let a15 = ATAN_C15 - u2 * (ATAN_C17 as int) / (SCALE as int);
    let a13 = ATAN_C13 - u2 * a15 / (SCALE as int);
    let a11 = ATAN_C11 - u2 * a13 / (SCALE as int);
    let a9 = ATAN_C9 - u2 * a11 / (SCALE as int);
    let a7 = ATAN_C7 - u2 * a9 / (SCALE as int);
    let a5 = ATAN_C5 - u2 * a7 / (SCALE as int);
    let a3 = ATAN_C3 - u2 * a5 / (SCALE as int);
    let q = POLY_SCALE - u2 * a3 / (SCALE as int);
    let raw = u * q / (POLY_SCALE as int);
    if raw < 0 {
        0
    } else if raw > QUARTER_PI_NANO {
        QUARTER_PI_NANO as int
    } else {
        raw
    }
}

/// Arctangent of a ratio in `[0, SCALE]` (that is, of a slope at most one),
/// folded into the first octant by the half-angle reflection
/// `atan(r) = pi/4 - atan((1 - r) / (1 + r))`.
pub open spec fn spec_atan_unit(r: int) -> int {
    if r <= ATAN_OCTANT_NANO {
        spec_atan_octant(r)
    } else {
        QUARTER_PI_NANO - spec_atan_octant(
            (SCALE as int) * (SCALE - r) / (SCALE as int + r),
        )
    }
}

/// First-quadrant polar angle of the point `(ax, ay)`, both nonnegative and
/// not both zero.
pub open spec fn spec_atan_quadrant(ax: int, ay: int) -> int {
    if ay <= ax {
        spec_atan_unit(ay * (SCALE as int) / ax)
    } else {
        HALF_PI_NANO - spec_atan_unit(ax * (SCALE as int) / ay)
    }
}

/// Full-circle polar angle of `(x, y)` in `[0, TAU_NANO)`; the origin is
/// assigned angle zero.
pub open spec fn spec_atan2(y: int, x: int) -> int {
    let ax = if x >= 0 {
        x
    } else {
        -x
    };
    let ay = if y >= 0 {
        y
    } else {
        -y
    };
    if ax == 0 && ay == 0 {
        0
    } else {
        let t = spec_atan_quadrant(ax, ay);
        if x >= 0 && y >= 0 {
            t
        } else if x < 0 && y >= 0 {
            PI_NANO - t
        } else if x < 0 {
            PI_NANO + t
        } else if t == 0 {
            0
        } else {
            TAU_NANO - t
        }
    }
}

/// First-octant arctangent; see [`spec_atan_octant`].
fn atan_octant(u: i64) -> (r: i64)
    requires
        0 <= u <= ATAN_OCTANT_NANO,
    ensures
        r == spec_atan_octant(u as int),
        0 <= r <= QUARTER_PI_NANO,
{
    let s: u128 = SCALE as u128;
    let uu: u128 = u as u128;
    proof {
        lemma_muldiv_le(u as int, u as int, ATAN_OCTANT_NANO as int, ATAN_OCTANT_NANO as int,
            SCALE as int);
        assert((ATAN_OCTANT_NANO as int) * (ATAN_OCTANT_NANO as int) / (SCALE as int)
            <= ATAN_U2_BOUND as int);
    }
    let u2: u128 = uu * uu / s;
    proof {
        lemma_muldiv_le(u2 as int, ATAN_C17 as int, ATAN_U2_BOUND as int, ATAN_C17 as int,
            SCALE as int);
        assert((ATAN_U2_BOUND as int) * (ATAN_C17 as int) / (SCALE as int) <= ATAN_C15 as int);
    }
    let a15: u128 = (ATAN_C15 as u128) - u2 * (ATAN_C17 as u128) / s;
    proof {
        lemma_muldiv_le(u2 as int, a15 as int, ATAN_U2_BOUND as int, ATAN_C15 as int,
            SCALE as int);
        assert((ATAN_U2_BOUND as int) * (ATAN_C15 as int) / (SCALE as int) <= ATAN_C13 as int);
    }
    let a13: u128 = (ATAN_C13 as u128) - u2 * a15 / s;
    proof {
        lemma_muldiv_le(u2 as int, a13 as int, ATAN_U2_BOUND as int, ATAN_C13 as int,
            SCALE as int);
        assert((ATAN_U2_BOUND as int) * (ATAN_C13 as int) / (SCALE as int) <= ATAN_C11 as int);
    }
    let a11: u128 = (ATAN_C11 as u128) - u2 * a13 / s;
    proof {
        lemma_muldiv_le(u2 as int, a11 as int, ATAN_U2_BOUND as int, ATAN_C11 as int,
            SCALE as int);
        assert((ATAN_U2_BOUND as int) * (ATAN_C11 as int) / (SCALE as int) <= ATAN_C9 as int);
    }
    let a9: u128 = (ATAN_C9 as u128) - u2 * a11 / s;
    proof {
        lemma_muldiv_le(u2 as int, a9 as int, ATAN_U2_BOUND as int, ATAN_C9 as int,
            SCALE as int);
        assert((ATAN_U2_BOUND as int) * (ATAN_C9 as int) / (SCALE as int) <= ATAN_C7 as int);
    }
    let a7: u128 = (ATAN_C7 as u128) - u2 * a9 / s;
    proof {
        lemma_muldiv_le(u2 as int, a7 as int, ATAN_U2_BOUND as int, ATAN_C7 as int,
            SCALE as int);
        assert((ATAN_U2_BOUND as int) * (ATAN_C7 as int) / (SCALE as int) <= ATAN_C5 as int);
    }
    let a5: u128 = (ATAN_C5 as u128) - u2 * a7 / s;
    proof {
        lemma_muldiv_le(u2 as int, a5 as int, ATAN_U2_BOUND as int, ATAN_C5 as int,
            SCALE as int);
        assert((ATAN_U2_BOUND as int) * (ATAN_C5 as int) / (SCALE as int) <= ATAN_C3 as int);
    }
    let a3: u128 = (ATAN_C3 as u128) - u2 * a5 / s;
    proof {
        lemma_muldiv_le(u2 as int, a3 as int, ATAN_U2_BOUND as int, ATAN_C3 as int,
            SCALE as int);
        assert((ATAN_U2_BOUND as int) * (ATAN_C3 as int) / (SCALE as int) <= POLY_SCALE as int);
    }
    let q: u128 = (POLY_SCALE as u128) - u2 * a3 / s;
    proof {
        lemma_muldiv_le(u as int, q as int, ATAN_OCTANT_NANO as int, POLY_SCALE as int,
            POLY_SCALE as int);
    }
    let raw: u128 = uu * q / (POLY_SCALE as u128);
    if raw > QUARTER_PI_NANO as u128 {
        QUARTER_PI_NANO
    } else {
        raw as i64
    }
}

/// Arctangent of a unit-range ratio; see [`spec_atan_unit`].
fn atan_unit(r: i64) -> (a: i64)
    requires
        0 <= r <= SCALE,
    ensures
        a == spec_atan_unit(r as int),
        0 <= a <= QUARTER_PI_NANO,
{
    if r <= ATAN_OCTANT_NANO {
        atan_octant(r)
    } else {
        proof {
            lemma_muldiv_le(SCALE as int, (SCALE - r) as int, SCALE as int,
                (SCALE - ATAN_OCTANT_NANO - 1) as int, (SCALE as int) + r as int);
            lemma_div_is_ordered_by_denominator((SCALE as int) * (SCALE - ATAN_OCTANT_NANO
                - 1) as int, (SCALE as int) + (ATAN_OCTANT_NANO as int) + 1,
                (SCALE as int) + r as int);
            vstd::arithmetic::div_mod::lemma_fundamental_div_mod_converse(
                585_786_437_000_000_000, 1_414_213_563, 414_213_561, 1_055_272_157);
            assert((SCALE as int) * (SCALE - ATAN_OCTANT_NANO - 1) as int
                == 585_786_437_000_000_000) by (nonlinear_arith);
            assert((SCALE as int) * (SCALE - ATAN_OCTANT_NANO - 1) as int / ((SCALE as int)
                + (ATAN_OCTANT_NANO as int) + 1) <= ATAN_OCTANT_NANO as int);
        }
        let u: u128 = (SCALE as u128) * ((SCALE - r) as u128) / ((SCALE + r) as u128);
        QUARTER_PI_NANO - atan_octant(u as i64)
    }
}

/// Full-circle polar angle; see [`spec_atan2`].  The bound on the inputs
/// keeps every intermediate product inside 128 bits.
pub fn atan2_nano(y: i64, x: i64) -> (r: i64)
    requires
        -100_000_000_000_000_000 <= x <= 100_000_000_000_000_000,
        -100_000_000_000_000_000 <= y <= 100_000_000_000_000_000,
    ensures
        r == spec_atan2(y as int, x as int),
        0 <= r < TAU_NANO,
{
    let ax: i64 = if x >= 0 {
        x
    } else {
        -x
    };
    let ay: i64 = if y >= 0 {
        y
    } else {
        -y
    };
    if ax == 0 && ay == 0 {
        return 0;
    }
    let t: i64 = if ay <= ax {
        proof {
            lemma_ratio_at_most_one(ay as int, ax as int);
        }
        let ratio: u128 = (ay as u128) * (SCALE as u128) / (ax as u128);
        atan_unit(ratio as i64)
    } else {
        proof {
            lemma_ratio_at_most_one(ax as int, ay as int);
        }
        let ratio: u128 = (ax as u128) * (SCALE as u128) / (ay as u128);
        HALF_PI_NANO - atan_unit(ratio as i64)
    };
    if x >= 0 && y >= 0 {
        t
    } else if x < 0 && y >= 0 {
        PI_NANO - t
    } else if x < 0 {
        PI_NANO + t
    } else if t == 0 {
        0
    } else {
        TAU_NANO - t
    }
}

} // verus!
