use vstd::prelude::*;
use crate::fp::{quot, abs_i, div_q, SCALE};
use crate::vec2::Vec2Fp;

verus! {

/// Pi in fixed-point microradians; one full turn is exactly twice this.
pub const PI_FP: i64 = 3_141_593;

pub const TWO_PI_FP: i64 = 6_283_186;

pub const HALF_PI_FP: i64 = 1_570_796;

pub const QUARTER_PI_FP: i64 = 785_398;

/// Coefficient of the quadratic arctangent approximation.
pub const ATAN_K: i64 = 273_000;

/// The representative of `a` modulo one full turn that lies in
/// `(-PI_FP, PI_FP]`: the signed shortest rotation to reach `a` from zero.
pub open spec fn spec_norm_angle(a: int) -> int {
    let m = a % (TWO_PI_FP as int);
    if m > PI_FP {
        m - TWO_PI_FP
    } else {
        m
    }
}

/// Smallest signed rotation carrying heading `a` onto heading `b`;
/// positive is counter-clockwise.
pub open spec fn spec_angle_diff(a: int, b: int) -> int {
    spec_norm_angle(b - a)
}

/// Normalize an angle into `(-PI_FP, PI_FP]`.
pub fn norm_angle(a: i64) -> (r: i64)
    requires
        -1_000_000_000_000_000_000 <= a <= 1_000_000_000_000_000_000,
    ensures
        r == spec_norm_angle(a as int),
        -PI_FP < r <= PI_FP,
        (a - r) % (TWO_PI_FP as int) == 0,
{
    let m: i64 = if a >= 0 {
        a % TWO_PI_FP
    } else {
        let k: i64 = (-a) % TWO_PI_FP;
        if k == 0 {
            0
        } else {
            TWO_PI_FP - k
        }
    };
    proof {
        assert(m == a as int % (TWO_PI_FP as int) && 0 <= m < TWO_PI_FP) by {
            if a >= 0 {
            } else {
                vstd::arithmetic::div_mod::lemma_mod_bound(-a as int, TWO_PI_FP as int);
                vstd::arithmetic::div_mod::lemma_mod_bound(a as int, TWO_PI_FP as int);
                vstd::arithmetic::div_mod::lemma_fundamental_div_mod(-a as int, TWO_PI_FP as int);
                vstd::arithmetic::div_mod::lemma_fundamental_div_mod(a as int, TWO_PI_FP as int);
                vstd::arithmetic::div_mod::lemma_add_mod_noop(a as int, TWO_PI_FP as int, TWO_PI_FP as int);
                let q = a as int / (TWO_PI_FP as int);
                let nq = (-a) as int / (TWO_PI_FP as int);
                let k = (-a) as int % (TWO_PI_FP as int);
                assert(a == TWO_PI_FP * (-nq) + (-k));
                if k == 0 {
                    assert(a as int % (TWO_PI_FP as int) == 0) by {
                        vstd::arithmetic::div_mod::lemma_mod_multiples_vanish(-nq, 0, TWO_PI_FP as int);
                    }
                } else {
                    assert(a == TWO_PI_FP * (-nq - 1) + (TWO_PI_FP - k));
                    assert(a as int % (TWO_PI_FP as int) == (TWO_PI_FP - k) % (TWO_PI_FP as int)) by {
                        vstd::arithmetic::div_mod::lemma_mod_multiples_vanish(-nq - 1, TWO_PI_FP - k, TWO_PI_FP as int);
                    }
                    vstd::arithmetic::div_mod::lemma_small_mod((TWO_PI_FP - k) as nat, TWO_PI_FP as nat);
                }
            }
        }
    }
    let r: i64 = if m > PI_FP {
        m - TWO_PI_FP
    } else {
        m
    };
    proof {
        let t = TWO_PI_FP as int;
        vstd::arithmetic::div_mod::lemma_fundamental_div_mod(a as int, t);
        let q = a as int / t;
        if m > PI_FP {
            assert(a - r == t * (q + 1));
            vstd::arithmetic::div_mod::lemma_mod_multiples_vanish(q + 1, 0, t);
        } else {
            assert(a - r == t * q);
            vstd::arithmetic::div_mod::lemma_mod_multiples_vanish(q, 0, t);
        }
    }
    r
}

/// Smallest signed rotation from heading `a` to heading `b`.
pub fn angle_diff(a: i64, b: i64) -> (r: i64)
    requires
        -400_000_000_000_000_000 <= a <= 400_000_000_000_000_000,
        -400_000_000_000_000_000 <= b <= 400_000_000_000_000_000,
    ensures
        r == spec_angle_diff(a as int, b as int),
        -PI_FP < r <= PI_FP,
{
    norm_angle(b - a)
}

/// Arctangent of `z / SCALE` for `z` in `[0, SCALE]`, by the quadratic
/// approximation `atan(z) ~= (pi/4) z + ATAN_K z (1 - z)`.
pub open spec fn spec_atan_unit(z: int) -> int {
    quot(z * QUARTER_PI_FP, SCALE as int) + quot(
        quot(z * (SCALE - z), SCALE as int) * ATAN_K,
        SCALE as int,
    )
}

/// The heading of the vector `v`, measured counter-clockwise from the
/// positive x axis, in `[-PI_FP, PI_FP]`: the fixed-point counterpart of
/// the two-argument arctangent, built from the octant reduction of
/// `spec_atan_unit`. The zero vector is given heading zero.
pub open spec fn spec_atan2(v: Vec2Fp) -> int {
    let ax = abs_i(v.x as int);
    let ay = abs_i(v.y as int);
    let base = if ax >= ay && ax > 0 {
        spec_atan_unit(quot(ay * SCALE, ax))
    } else if ay > ax {
        HALF_PI_FP - spec_atan_unit(quot(ax * SCALE, ay))
    } else {
        0
    };
    let from_pos_x = if v.x < 0 {
        PI_FP - base
    } else {
        base
    };
    if v.y < 0 {
        -from_pos_x
    } else {
        from_pos_x
    }
}

/// `spec_atan_unit` stays within `[0, HALF_PI_FP]` on `[0, SCALE]`.
pub proof fn lemma_atan_unit_range(z: int)
    requires
        0 <= z <= SCALE,
    ensures
        0 <= spec_atan_unit(z) <= HALF_PI_FP,
{
    let s = SCALE as int;
    assert(0 <= z * QUARTER_PI_FP <= s * QUARTER_PI_FP && 0 <= z * (s - z) <= s * s)
        by (nonlinear_arith)
        requires
            0 <= z <= s,
            s == SCALE as int,
    ;
    crate::fp::lemma_quot_abs(z * QUARTER_PI_FP, s);
    vstd::arithmetic::div_mod::lemma_div_is_ordered(z * QUARTER_PI_FP, s * QUARTER_PI_FP, s);
    vstd::arithmetic::div_mod::lemma_div_multiples_vanish(QUARTER_PI_FP as int, s);
    let inner = quot(z * (s - z), s);
    crate::fp::lemma_quot_abs(z * (s - z), s);
    vstd::arithmetic::div_mod::lemma_div_is_ordered(z * (s - z), s * s, s);
    vstd::arithmetic::div_mod::lemma_div_multiples_vanish(s, s);
    assert(0 <= inner <= s);
    assert(0 <= inner * ATAN_K <= s * ATAN_K) by (nonlinear_arith)
        requires
            0 <= inner <= s,
    ;
    crate::fp::lemma_quot_abs(inner * ATAN_K, s);
    vstd::arithmetic::div_mod::lemma_div_is_ordered(inner * ATAN_K, s * ATAN_K, s);
    vstd::arithmetic::div_mod::lemma_div_multiples_vanish(ATAN_K as int, s);
}

/// Arctangent of `z / SCALE` on the unit interval.
fn atan_unit(z: i64) -> (r: i64)
    requires
        0 <= z <= SCALE,
    ensures
        r == spec_atan_unit(z as int),
        0 <= r <= HALF_PI_FP,
{
    let t1: i128 = div_q((z as i128) * (QUARTER_PI_FP as i128), SCALE as i128);
    let w: i128 = crate::fp::mul_q(z as i128, (SCALE - z) as i128);
    let inner: i128 = div_q(w, SCALE as i128);
    proof {
        lemma_atan_unit_range(z as int);
        crate::fp::lemma_quot_abs(z as int * (SCALE - z) as int, SCALE as int);
        assert(0 <= z as int * (SCALE - z) as int <= SCALE as int * SCALE as int)
            by (nonlinear_arith)
            requires
                0 <= z <= SCALE,
        ;
        vstd::arithmetic::div_mod::lemma_div_is_ordered(
            z as int * (SCALE - z) as int,
            SCALE as int * SCALE as int,
            SCALE as int,
        );
        vstd::arithmetic::div_mod::lemma_div_multiples_vanish(SCALE as int, SCALE as int);
        assert(0 <= inner * ATAN_K <= SCALE * ATAN_K) by (nonlinear_arith)
            requires
                0 <= inner <= SCALE,
        ;
    }
    let t2: i128 = div_q(inner * (ATAN_K as i128), SCALE as i128);
    let r: i128 = t1 + t2;
    r as i64
}

/// Fixed-point two-argument arctangent: the heading of `v` from the
/// positive x axis, in `[-PI_FP, PI_FP]`.
pub fn atan2_fp(v: Vec2Fp) -> (r: i64)
    requires
        -2 * crate::fp::MAX_POINT <= v.x <= 2 * crate::fp::MAX_POINT,
        -2 * crate::fp::MAX_POINT <= v.y <= 2 * crate::fp::MAX_POINT,
    ensures
        r == spec_atan2(v),
        -PI_FP <= r <= PI_FP,
{
    let ax: i64 = if v.x >= 0 {
        v.x
    } else {
        -v.x
    };
    let ay: i64 = if v.y >= 0 {
        v.y
    } else {
        -v.y
    };
    let base: i64 = if ax >= ay && ax > 0 {
        let z: i128 = div_q((ay as i128) * (SCALE as i128), ax as i128);
        proof {
            crate::fp::lemma_quot_abs(ay as int * SCALE as int, ax as int);
            assert(0 <= ay as int * SCALE as int <= ax as int * SCALE as int)
                by (nonlinear_arith)
                requires
                    0 <= ay <= ax,
            ;
            vstd::arithmetic::div_mod::lemma_div_is_ordered(
                ay as int * SCALE as int,
                ax as int * SCALE as int,
                ax as int,
            );
            vstd::arithmetic::div_mod::lemma_div_multiples_vanish(SCALE as int, ax as int);
            vstd::arithmetic::div_mod::lemma_div_pos_is_pos(ay as int * SCALE as int, ax as int);
        }
        atan_unit(z as i64)
    } else if ay > ax {
        let z: i128 = div_q((ax as i128) * (SCALE as i128), ay as i128);
        proof {
            crate::fp::lemma_quot_abs(ax as int * SCALE as int, ay as int);
            assert(0 <= ax as int * SCALE as int <= ay as int * SCALE as int)
                by (nonlinear_arith)
                requires
                    0 <= ax <= ay,
            ;
            vstd::arithmetic::div_mod::lemma_div_is_ordered(
                ax as int * SCALE as int,
                ay as int * SCALE as int,
                ay as int,
            );
            vstd::arithmetic::div_mod::lemma_div_multiples_vanish(SCALE as int, ay as int);
            vstd::arithmetic::div_mod::lemma_div_pos_is_pos(ax as int * SCALE as int, ay as int);
        }
        HALF_PI_FP - atan_unit(z as i64)
    } else {
        0
    };
    let from_pos_x: i64 = if v.x < 0 {
        PI_FP - base
    } else {
        base
    };
    if v.y < 0 {
        -from_pos_x
    } else {
        from_pos_x
    }
}

} // verus!
