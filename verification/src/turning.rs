use vstd::prelude::*;
use crate::fp::{quot, abs_i, sgn, div_q, mul_q, abs_q, sgn_q, SCALE, TICKS_PER_SECOND, MAX_SENSE};
use crate::angles::{PI_FP, spec_angle_diff, angle_diff};

verus! {

/// Heading error under which the controller snaps onto the target.
pub const SNAP_ANGLE_FP: i64 = 10_000;

/// Remaining stopping time, in fixed-point ticks, under which the
/// controller counts as stopping on the current tick.
pub const STOP_TICKS_LIMIT_FP: i64 = 975_000;

/// One tick in fixed-point seconds.
pub const DT_FP: i64 = 16_666;

/// Every angular-acceleration limit at least this large keeps the snap
/// correction within the limit itself.
pub const TORQUE_LIMIT_MIN_ALPHA: i64 = 10_166;

/// Time to brake the angular rate to zero at full deceleration,
/// in fixed-point seconds.
pub open spec fn spec_t_stop(omega: int, alpha: int) -> int {
    quot(abs_i(omega) * SCALE, alpha)
}

/// The stop lands on the current tick and the craft is already aligned.
pub open spec fn spec_snap_cond(theta: int, omega: int, alpha: int) -> bool {
    abs_i(theta) < SNAP_ANGLE_FP && spec_t_stop(omega, alpha) * TICKS_PER_SECOND
        < STOP_TICKS_LIMIT_FP
}

/// The angle swept while accelerating one further tick and then braking
/// to a standstill at the full limit.
pub open spec fn spec_theta_stop_after(theta: int, omega: int, alpha: int) -> int {
    let dir = sgn(theta);
    let ts = spec_t_stop(omega, alpha);
    let omega_after = omega + dir * quot(alpha, TICKS_PER_SECOND as int);
    let brake = quot(ts * alpha, 2 * SCALE);
    quot((omega_after - dir * brake) * (ts + DT_FP), SCALE as int)
}

/// Keeping full acceleration for one more tick would overshoot the target.
pub open spec fn spec_overshoot_cond(theta: int, omega: int, alpha: int) -> bool {
    sgn(theta) == sgn(omega) && abs_i(spec_theta_stop_after(theta, omega, alpha)) > abs_i(theta)
}

/// The single-tick torque chosen for a heading error `theta`: snap onto
/// the target when stopping there this tick, brake at the full limit when
/// one more accelerated tick would overshoot, else accelerate at the full
/// limit toward the target.
pub open spec fn spec_torque(theta: int, omega: int, alpha: int) -> int {
    if spec_snap_cond(theta, omega, alpha) {
        theta - omega
    } else if spec_overshoot_cond(theta, omega, alpha) {
        -sgn(theta) * alpha
    } else {
        sgn(theta) * alpha
    }
}

/// The torque commanded toward a target heading.
pub open spec fn spec_turn(heading: int, target_heading: int, omega: int, alpha: int) -> int {
    spec_torque(spec_angle_diff(heading, target_heading), omega, alpha)
}

/// Bang-bang angular controller for a signed shortest-path heading error.
pub fn torque_for_error(theta: i64, omega: i64, alpha_max: i64) -> (r: i64)
    requires
        -PI_FP <= theta <= PI_FP,
        -MAX_SENSE <= omega <= MAX_SENSE,
        1 <= alpha_max <= MAX_SENSE,
    ensures
        r == spec_torque(theta as int, omega as int, alpha_max as int),
{
    let dir: i128 = sgn_q(theta as i128);
    let aw: i128 = abs_q(omega as i128);
    let ts: i128 = div_q(mul_q(aw, SCALE as i128), alpha_max as i128);
    proof {
        crate::fp::lemma_quot_abs(abs_i(omega as int) * SCALE, alpha_max as int);
        vstd::arithmetic::mul::lemma_mul_is_commutative(
            alpha_max as int,
            quot(abs_i(omega as int) * SCALE, alpha_max as int),
        );
        assert(0 <= ts <= abs_i(omega as int) * SCALE);
        assert(abs_i(omega as int) * SCALE <= 100_000_000_000_000_000) by (nonlinear_arith)
            requires
                0 <= abs_i(omega as int) <= MAX_SENSE,
                MAX_SENSE == 100_000_000_000,
                SCALE == 1_000_000,
        ;
    }
    let snap = {
        let at: i128 = abs_q(theta as i128);
        at < SNAP_ANGLE_FP as i128 && mul_q(ts, TICKS_PER_SECOND as i128)
            < STOP_TICKS_LIMIT_FP as i128
    };
    if snap {
        theta - omega
    } else {
        let step: i128 = (alpha_max / TICKS_PER_SECOND) as i128;
        let ds: i128 = mul_q(dir, step);
        proof {
            assert(-MAX_SENSE <= ds <= MAX_SENSE && ds == dir * step) by (nonlinear_arith)
                requires
                    ds == dir * step,
                    -1 <= dir <= 1,
                    0 <= step <= MAX_SENSE,
            ;
        }
        let omega_after: i128 = (omega as i128) + ds;
        proof {
            assert(omega_after == omega + dir * quot(alpha_max as int, TICKS_PER_SECOND as int)
                && -2 * MAX_SENSE <= omega_after <= 2 * MAX_SENSE) by (nonlinear_arith)
                requires
                    dir == sgn(theta as int),
                    omega_after == omega + dir * step,
                    step == quot(alpha_max as int, TICKS_PER_SECOND as int),
                    -MAX_SENSE <= omega <= MAX_SENSE,
                    0 <= step <= MAX_SENSE,
            ;
        }
        let brake: i128 = div_q(mul_q(ts, alpha_max as i128), 2 * SCALE as i128);
        proof {
            // `ts * alpha` stays below `|omega| * SCALE`, so `brake` stays
            // below half the angular rate.
            vstd::arithmetic::div_mod::lemma_div_is_ordered(
                ts as int * alpha_max as int,
                abs_i(omega as int) * SCALE,
                2 * SCALE as int,
            );
            crate::fp::lemma_quot_abs(ts as int * alpha_max as int, 2 * SCALE as int);
            vstd::arithmetic::mul::lemma_mul_inequality(
                ts as int,
                abs_i(omega as int) * SCALE / (alpha_max as int),
                alpha_max as int,
            );
            assert((abs_i(omega as int) * SCALE / (alpha_max as int)) * alpha_max
                <= abs_i(omega as int) * SCALE);
            assert(abs_i(omega as int) * SCALE / (2 * SCALE as int) <= MAX_SENSE)
                by (nonlinear_arith)
                requires
                    0 <= abs_i(omega as int) <= MAX_SENSE,
            ;
            assert(0 <= ts * alpha_max as i128) by (nonlinear_arith)
                requires
                    ts >= 0,
                    alpha_max >= 1,
            ;
        }
        let db: i128 = mul_q(dir, brake);
        proof {
            assert(-MAX_SENSE <= db <= MAX_SENSE && db == dir * brake) by (nonlinear_arith)
                requires
                    db == dir * brake,
                    -1 <= dir <= 1,
                    -MAX_SENSE <= brake <= MAX_SENSE,
            ;
        }
        let inner: i128 = omega_after - db;
        proof {
            assert(-4 * MAX_SENSE <= inner <= 4 * MAX_SENSE) by (nonlinear_arith)
                requires
                    inner == omega_after - db,
                    db == dir * brake,
                    -2 * MAX_SENSE <= omega_after <= 2 * MAX_SENSE,
                    -1 <= dir <= 1,
                    -MAX_SENSE <= brake <= MAX_SENSE,
            ;
        }
        let swept: i128 = div_q(mul_q(inner, ts + DT_FP as i128), SCALE as i128);
        let so: i128 = sgn_q(omega as i128);
        let overshoot = dir == so && abs_q(swept) > abs_q(theta as i128);
        if overshoot {
            let t: i128 = -mul_q(dir, alpha_max as i128);
            proof {
                assert(-MAX_SENSE <= t <= MAX_SENSE && t == -sgn(theta as int) * alpha_max)
                    by (nonlinear_arith)
                    requires
                        t == -(dir * (alpha_max as i128)),
                        dir == sgn(theta as int),
                        -1 <= dir <= 1,
                        1 <= alpha_max <= MAX_SENSE,
                ;
            }
            t as i64
        } else {
            let t: i128 = mul_q(dir, alpha_max as i128);
            proof {
                assert(-MAX_SENSE <= t <= MAX_SENSE && t == sgn(theta as int) * alpha_max)
                    by (nonlinear_arith)
                    requires
                        t == dir * (alpha_max as i128),
                        dir == sgn(theta as int),
                        -1 <= dir <= 1,
                        1 <= alpha_max <= MAX_SENSE,
                ;
            }
            t as i64
        }
    }
}

/// Torque command that steers the current heading toward a target heading.
pub fn turn_torque(heading: i64, target_heading: i64, omega: i64, alpha_max: i64) -> (r: i64)
    requires
        -400_000_000_000_000_000 <= heading <= 400_000_000_000_000_000,
        -400_000_000_000_000_000 <= target_heading <= 400_000_000_000_000_000,
        -MAX_SENSE <= omega <= MAX_SENSE,
        1 <= alpha_max <= MAX_SENSE,
    ensures
        r == spec_turn(heading as int, target_heading as int, omega as int, alpha_max as int),
{
    let theta = angle_diff(heading, target_heading);
    torque_for_error(theta, omega, alpha_max)
}

/// The commanded torque never exceeds the angular-acceleration limit in
/// magnitude, for every limit at least `TORQUE_LIMIT_MIN_ALPHA`.
pub proof fn lemma_torque_within_limit(theta: int, omega: int, alpha: int)
    requires
        -PI_FP <= theta <= PI_FP,
        -MAX_SENSE <= omega <= MAX_SENSE,
        TORQUE_LIMIT_MIN_ALPHA <= alpha <= MAX_SENSE,
    ensures
        abs_i(spec_torque(theta, omega, alpha)) <= alpha,
{
    if spec_snap_cond(theta, omega, alpha) {
        let ts = spec_t_stop(omega, alpha);
        assert(ts * TICKS_PER_SECOND < STOP_TICKS_LIMIT_FP);
        assert(ts <= 16_249) by (nonlinear_arith)
            requires
                ts * TICKS_PER_SECOND < STOP_TICKS_LIMIT_FP,
                TICKS_PER_SECOND == 60,
                STOP_TICKS_LIMIT_FP == 975_000,
                ts >= 0 || ts < 0,
        ;
        crate::fp::lemma_quot_abs(abs_i(omega) * SCALE, alpha);
        vstd::arithmetic::div_mod::lemma_fundamental_div_mod(abs_i(omega) * SCALE, alpha);
        vstd::arithmetic::div_mod::lemma_mod_bound(abs_i(omega) * SCALE, alpha);
        assert(ts >= 0) by {
            vstd::arithmetic::div_mod::lemma_div_pos_is_pos(abs_i(omega) * SCALE, alpha);
            assert(abs_i(omega) * SCALE >= 0) by (nonlinear_arith)
                requires
                    abs_i(omega) >= 0,
            ;
        }
        assert(abs_i(omega) * SCALE < 16_250 * alpha) by (nonlinear_arith)
            requires
                abs_i(omega) * SCALE == alpha * ts + (abs_i(omega) * SCALE) % alpha,
                0 <= (abs_i(omega) * SCALE) % alpha < alpha,
                0 <= ts <= 16_249,
        ;
        assert(SCALE * abs_i(theta - omega) <= SCALE * abs_i(theta) + SCALE * abs_i(omega));
        assert(SCALE * abs_i(theta) < SCALE * SNAP_ANGLE_FP) by (nonlinear_arith)
            requires
                abs_i(theta) < SNAP_ANGLE_FP,
                SCALE == 1_000_000,
        ;
        assert(SCALE * abs_i(omega) < 16_250 * alpha) by (nonlinear_arith)
            requires
                abs_i(omega) * SCALE < 16_250 * alpha,
        ;
        assert(SCALE * SNAP_ANGLE_FP + 16_250 * alpha <= SCALE * alpha) by (nonlinear_arith)
            requires
                alpha >= TORQUE_LIMIT_MIN_ALPHA,
                TORQUE_LIMIT_MIN_ALPHA == 10_166,
                SCALE == 1_000_000,
                SNAP_ANGLE_FP == 10_000,
        ;
        assert(abs_i(theta - omega) <= alpha) by (nonlinear_arith)
            requires
                SCALE * abs_i(theta - omega) <= SCALE * alpha,
                SCALE == 1_000_000,
        ;
    } else {
        let d = sgn(theta);
        assert(abs_i(-d * alpha) <= alpha && abs_i(d * alpha) <= alpha) by (nonlinear_arith)
            requires
                d == sgn(theta),
                -1 <= d <= 1,
                alpha >= 1,
        ;
    }
}

} // verus!
