use vstd::prelude::*;

verus! {

/// One fixed-point unit is one millionth of the physical unit
/// (micrometers, microradians, microseconds, and so on).
pub const SCALE: i64 = 1_000_000;

/// The simulation advances in fixed steps of 1/60 of a second.
pub const TICKS_PER_SECOND: i64 = 60;

/// Largest magnitude accepted from the sensing layer for any scalar
/// (position or velocity component, angular rate, acceleration limit).
pub const MAX_SENSE: i64 = 100_000_000_000;

/// Largest magnitude of a coordinate of a computed aim or travel point.
pub const MAX_POINT: i64 = 10_000_000_000_000;

/// Bound under which the wide helpers below never overflow an `i128`.
pub const WIDE_LIM: i128 = 1_000_000_000_000_000_000;

/// Truncated (round-toward-zero) quotient by a positive divisor: the
/// division every executable fixed-point routine in this crate performs.
pub open spec fn quot(a: int, b: int) -> int {
    if a >= 0 {
        a / b
    } else {
        -((-a) / b)
    }
}

/// Truncated quotient for a divisor of either sign.
pub open spec fn quot_s(a: int, b: int) -> int {
    if b > 0 {
        quot(a, b)
    } else {
        -quot(a, -b)
    }
}

pub open spec fn abs_i(a: int) -> int {
    if a >= 0 {
        a
    } else {
        -a
    }
}

pub open spec fn sgn(a: int) -> int {
    if a > 0 {
        1
    } else if a < 0 {
        -1
    } else {
        0
    }
}

/// The magnitude of a truncated quotient is the quotient of the magnitude,
/// and never exceeds the magnitude of the dividend.
pub proof fn lemma_quot_abs(a: int, b: int)
    requires
        b >= 1,
    ensures
        abs_i(quot(a, b)) == abs_i(a) / b,
        abs_i(quot(a, b)) <= abs_i(a),
        b * (abs_i(a) / b) <= abs_i(a),
{
    vstd::arithmetic::div_mod::lemma_div_pos_is_pos(abs_i(a), b);
    vstd::arithmetic::div_mod::lemma_div_nonincreasing(abs_i(a), b);
    vstd::arithmetic::div_mod::lemma_fundamental_div_mod(abs_i(a), b);
    vstd::arithmetic::div_mod::lemma_remainder_lower(abs_i(a), b);
}

/// Truncated division on wide integers.
pub fn div_q(a: i128, b: i128) -> (r: i128)
    requires
        b >= 1,
        -WIDE_LIM * WIDE_LIM <= a <= WIDE_LIM * WIDE_LIM,
    ensures
        r == quot(a as int, b as int),
        abs_i(r as int) <= abs_i(a as int),
{
    proof {
        lemma_quot_abs(a as int, b as int);
    }
    if a >= 0 {
        a / b
    } else {
        -((-a) / b)
    }
}

/// Truncated division on wide integers by a divisor of either sign.
pub fn div_qs(a: i128, b: i128) -> (r: i128)
    requires
        b != 0,
        -WIDE_LIM * WIDE_LIM <= a <= WIDE_LIM * WIDE_LIM,
        -WIDE_LIM * WIDE_LIM <= b <= WIDE_LIM * WIDE_LIM,
    ensures
        r == quot_s(a as int, b as int),
        abs_i(r as int) <= abs_i(a as int),
{
    if b > 0 {
        div_q(a, b)
    } else {
        -div_q(a, -b)
    }
}

/// Product of two wide integers, exact when both stay under `WIDE_LIM`.
pub fn mul_q(a: i128, b: i128) -> (r: i128)
    requires
        -WIDE_LIM <= a <= WIDE_LIM,
        -WIDE_LIM <= b <= WIDE_LIM,
    ensures
        r == a * b,
        abs_i(r as int) == abs_i(a as int) * abs_i(b as int),
        -WIDE_LIM * WIDE_LIM <= r <= WIDE_LIM * WIDE_LIM,
{
    proof {
        assert(-(WIDE_LIM * WIDE_LIM) <= a * b <= WIDE_LIM * WIDE_LIM
            && abs_i(a as int * b as int) == abs_i(a as int) * abs_i(b as int))
            by (nonlinear_arith)
            requires
                -WIDE_LIM <= a <= WIDE_LIM,
                -WIDE_LIM <= b <= WIDE_LIM,
        ;
    }
    a * b
}

/// Magnitude of a wide integer.
pub fn abs_q(a: i128) -> (r: i128)
    requires
        -WIDE_LIM * WIDE_LIM <= a <= WIDE_LIM * WIDE_LIM,
    ensures
        r == abs_i(a as int),
{
    if a >= 0 {
        a
    } else {
        -a
    }
}

/// Sign of a wide integer.
pub fn sgn_q(a: i128) -> (r: i128)
    ensures
        r == sgn(a as int),
{
    if a > 0 {
        1
    } else if a < 0 {
        -1
    } else {
        0
    }
}

/// Integer square root by bisection: the floor of the real square root.
pub fn isqrt(n: u128) -> (r: u128)
    requires
        n < 1_000_000_000_000_000_000_000_000_000_000_000_000,
    ensures
        r * r <= n,
        (r + 1) * (r + 1) > n,
        r <= 1_000_000_000_000_000_000,
{
    let mut lo: u128 = 0;
    let mut hi: u128 = 1_000_000_000_000_000_001;
    proof {
        assert(hi * hi > n) by (nonlinear_arith)
            requires
                hi == 1_000_000_000_000_000_001u128,
                n < 1_000_000_000_000_000_000_000_000_000_000_000_000,
        ;
    }
    while lo + 1 < hi
        invariant
            lo < hi,
            hi <= 1_000_000_000_000_000_001,
            lo * lo <= n,
            hi * hi > n,
        decreases hi - lo,
    {
        let mid: u128 = lo + (hi - lo) / 2;
        assert(lo < mid < hi);
        proof {
            assert(mid * mid <= 1_000_000_000_000_000_001 * 1_000_000_000_000_000_001)
                by (nonlinear_arith)
                requires
                    0 <= mid <= 1_000_000_000_000_000_001u128,
            ;
        }
        if mid * mid <= n {
            lo = mid;
        } else {
            hi = mid;
        }
    }
    lo
}

} // verus!
