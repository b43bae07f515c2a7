//! Fixed-point scales, shared constants, and small verified integer helpers.
//!
//! Angles are carried as nano-radians (`SCALE` nano-units to one radian-unit),
//! distances as milli-kilometres, and simulated time as milli-days.  The
//! quarter-circle constant `HALF_PI_NANO` is the rounded value of pi/2 in
//! nano-radians; `PI_NANO` and `TAU_NANO` are exact multiples of it so that
//! quadrant arithmetic stays exact.

use vstd::prelude::*;

verus! {

use vstd::arithmetic::div_mod::{
    lemma_div_is_ordered, lemma_div_multiples_vanish, lemma_div_pos_is_pos,
    lemma_mod_multiples_basic, lemma_mod_multiples_vanish, lemma_small_mod,
};
use vstd::arithmetic::mul::{lemma_mul_inequality, lemma_mul_nonnegative, lemma_mul_upper_bound};

/// One unit in the nano fixed-point scale (1e9).
pub const SCALE: i64 = 1_000_000_000;

/// Coefficient scale used inside polynomial evaluations (1e12).
pub const POLY_SCALE: i64 = 1_000_000_000_000;

/// pi/2 in nano-radians, rounded to the nearest integer.
pub const HALF_PI_NANO: i64 = 1_570_796_327;

/// pi in nano-radians; exactly twice `HALF_PI_NANO`.
pub const PI_NANO: i64 = 3_141_592_654;

/// 2*pi in nano-radians; exactly four times `HALF_PI_NANO`.
pub const TAU_NANO: i64 = 6_283_185_308;

/// One quarter turn of 360 degrees, expressed in micro-degrees.
pub const MICRO_DEG_FULL_TURN: i64 = 360_000_000;

/// Signed fixed-point product `a * b / d` where `a` and `d` are positive and
/// only `b` may be negative; the quotient is taken on magnitudes, so the
/// result rounds toward zero.
pub open spec fn spec_smul_div(a: int, b: int, d: int) -> int {
    if b >= 0 {
        a * b / d
    } else {
        -(a * (-b) / d)
    }
}

/// Unsigned `a * b / d` computed through 128-bit intermediates.
pub fn mul_div_u64(a: u64, b: u64, d: u64) -> (r: u64)
    requires
        d > 0,
        a * b / (d as int) <= u64::MAX,
    ensures
        r == a * b / (d as int),
{
    proof {
        lemma_mul_upper_bound(a as int, u64::MAX as int, b as int, u64::MAX as int);
    }
    let p: u128 = (a as u128) * (b as u128);
    (p / (d as u128)) as u64
}

/// Signed fixed-point multiply-divide; see [`spec_smul_div`].
pub fn smul_div_i64(a: i64, b: i64, d: i64) -> (r: i64)
    requires
        0 <= a,
        0 < d,
        b > i64::MIN,
        a * b / (d as int) <= i64::MAX,
        a * -(b as int) / (d as int) <= i64::MAX,
    ensures
        r == spec_smul_div(a as int, b as int, d as int),
{
    if b >= 0 {
        let m: u64 = mul_div_u64(a as u64, b as u64, d as u64);
        m as i64
    } else {
        let m: u64 = mul_div_u64(a as u64, (-b) as u64, d as u64);
        -(m as i64)
    }
}

/// Integer square root: the largest `r` with `r * r <= n`.
pub fn isqrt_u64(n: u64) -> (r: u64)
    ensures
        r * r <= n < (r + 1) * (r + 1),
{
    if n == 0 {
        return 0;
    }
    let mut lo: u64 = 0;
    let mut hi: u64 = 4_294_967_296;
    proof {
        assert((4_294_967_296 as int) * (4_294_967_296 as int) > u64::MAX as int)
            by (nonlinear_arith);
    }
    while hi - lo > 1
        invariant
            lo < hi <= 4_294_967_296,
            lo * lo <= n,
            hi * hi > n,
        decreases hi - lo,
    {
        let mid: u64 = lo + (hi - lo) / 2;
        proof {
            lemma_mul_upper_bound(mid as int, 4_294_967_296, mid as int, 4_294_967_296);
            assert((4_294_967_296 as int) * (4_294_967_296 as int) <= u128::MAX as int)
                by (nonlinear_arith);
        }
        let sq: u128 = (mid as u128) * (mid as u128);
        if sq <= n as u128 {
            lo = mid;
        } else {
            hi = mid;
        }
    }
    lo
}

/// Reduces a wide fixed-point angle to the canonical range `[0, TAU_NANO)`;
/// the table loader uses it to fold signed angle fields into range.
pub fn norm_tau_i128(v: i128) -> (r: i64)
    requires
        v > i128::MIN,
    ensures
        r == (v as int) % (TAU_NANO as int),
        0 <= r < TAU_NANO,
{
    if v >= 0 {
        let r: u128 = (v as u128) % (TAU_NANO as u128);
        r as i64
    } else {
        let n: u128 = (-v) as u128;
        let q: u128 = n / (TAU_NANO as u128);
        let m: u128 = n % (TAU_NANO as u128);
        if m == 0 {
            proof {
                lemma_mod_multiples_basic(-(q as int), TAU_NANO as int);
                assert(v as int == TAU_NANO as int * -(q as int));
            }
            0
        } else {
            proof {
                lemma_mod_multiples_vanish(
                    -(q as int) - 1,
                    TAU_NANO as int - m as int,
                    TAU_NANO as int,
                );
                assert(v as int == TAU_NANO as int * (-(q as int) - 1) + (TAU_NANO as int
                    - m as int));
                lemma_small_mod((TAU_NANO as int - m as int) as nat, TAU_NANO as nat);
            }
            TAU_NANO - (m as i64)
        }
    }
}

/// `|spec_smul_div(a, b, d)| <= a` whenever `|b| <= d`.
pub proof fn lemma_smul_div_bound(a: int, b: int, d: int)
    requires
        0 <= a,
        0 < d,
        -d <= b <= d,
    ensures
        -a <= spec_smul_div(a, b, d) <= a,
        a * b / d <= a,
        a * -b / d <= a,
{
    lemma_mul_inequality(b, d, a);
    lemma_div_is_ordered(a * b, a * d, d);
    lemma_mul_inequality(-b, d, a);
    lemma_div_is_ordered(a * -b, a * d, d);
    lemma_div_multiples_vanish(a, d);
    if b >= 0 {
        lemma_mul_nonnegative(a, b);
        lemma_div_pos_is_pos(a * b, d);
    } else {
        lemma_mul_nonnegative(a, -b);
        lemma_div_pos_is_pos(a * -b, d);
    }
}

} // verus!
